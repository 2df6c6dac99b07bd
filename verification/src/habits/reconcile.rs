//! Passes over missed occurrences, and a person's choice for one of them.
use std::collections::BTreeMap;

use vstd::prelude::*;

use crate::habits::missed::{
    advance_resolution, explicit_policy, explicit_resume_action, maintained_action, new_resolution,
    source_cancellation_reason, transition_allowed, MissedStep,
};
use crate::habits::model::{
    from_i64, to_i64, HabitMissedCancellationReason, HabitMissedConfiguration, HabitMissedPolicy,
    HabitMissedReconcileResult, HabitMissedResolution, HabitMissedResolutionAction,
    HabitMissedResumeAction, HabitOccurrence, HabitPause, HabitRepositoryError, MissedResolveWrite,
};
use crate::habits::names::{missed_action_columns, MissedActionColumns};
use crate::habits::outcomes::{audit_entry, page_fetch_limit, HabitAudit};
use crate::habits::receipts::{
    replay_missed_reconcile, replay_missed_resolution, validate_occurrence, validate_resolution,
    StoredReceipt,
};
use crate::hashing::number_bytes;
use crate::outside::name_uuid;
use crate::text::same_text;
use crate::time::{Instant, Uuid};

verus! {

/// The operation of one decision within a pass: it is the same each time that the
/// pass is made, and another one for another occurrence.
pub open spec fn child_operation(operation_id: Uuid, evidence_id: Uuid) -> Uuid {
    crate::outside::uuid_of_name(
        operation_id,
        crate::hashing::be_bytes(evidence_id as nat, 16),
    )
}

/// The operation of one decision within a pass.
pub fn child_operation_id(operation_id: Uuid, evidence_id: Uuid) -> (result: Uuid)
    ensures
        result == child_operation(operation_id, evidence_id),
{
    let name: Vec<u8> = number_bytes(evidence_id, 16);
    name_uuid(operation_id, &name)
}

/// What a pass begins with.
#[derive(Debug)]
pub enum ReconcileStart {
    /// The pass was made before, and answered this.
    Replayed(HabitMissedReconcileResult),
    /// There is no habit to look at: the answer is empty.
    Nothing,
    /// Decisions are to be looked at.
    Run,
}

/// What a pass begins with. `receipt` is what it was answered before.
pub fn begin_reconcile(
    receipt: Option<StoredReceipt>,
    policies: &BTreeMap<Uuid, HabitMissedConfiguration>,
) -> (result: Result<ReconcileStart, HabitRepositoryError>)
    ensures
        match receipt {
            Some(StoredReceipt::MissedReconcile(value)) => result == Ok::<
                ReconcileStart,
                HabitRepositoryError,
            >(ReconcileStart::Replayed(value)),
            Some(_) => result == Err::<ReconcileStart, HabitRepositoryError>(
                HabitRepositoryError::IdempotencyConflict,
            ),
            None => result == Ok::<ReconcileStart, HabitRepositoryError>(
                if policies@.len() == 0 {
                    ReconcileStart::Nothing
                } else {
                    ReconcileStart::Run
                },
            ),
        },
{
    match replay_missed_reconcile(receipt) {
        Ok(Some(value)) => {
            return Ok(ReconcileStart::Replayed(value));
        },
        Ok(None) => {},
        Err(error) => {
            return Err(error);
        },
    }
    if policies.len() == 0 {
        Ok(ReconcileStart::Nothing)
    } else {
        Ok(ReconcileStart::Run)
    }
}

/// The present configuration of a habit that a decision belongs to.
pub fn configuration_of(
    policies: &BTreeMap<Uuid, HabitMissedConfiguration>,
    habit_id: Uuid,
) -> (result: Result<HabitMissedConfiguration, HabitRepositoryError>)
    ensures
        result == (if policies@.contains_key(habit_id) {
            Ok::<HabitMissedConfiguration, HabitRepositoryError>(policies@[habit_id])
        } else {
            Err(HabitRepositoryError::EvidenceConflict)
        }),
{
    match policies.get(&habit_id) {
        Some(configuration) => Ok(*configuration),
        None => Err(HabitRepositoryError::EvidenceConflict),
    }
}

/// The configuration of a habit, as the database takes it.
#[derive(Clone, Copy, Debug)]
pub struct ConfigurationRow {
    pub habit_id: Uuid,
    pub item_revision: i64,
    pub policy_fingerprint: [u8; 32],
    pub is_active: bool,
}

/// Whether a row holds the configuration of its habit.
pub open spec fn row_holds(
    row: ConfigurationRow,
    policies: Map<Uuid, HabitMissedConfiguration>,
) -> bool {
    &&& policies.contains_key(row.habit_id)
    &&& row.item_revision == policies[row.habit_id].item_revision
    &&& row.policy_fingerprint == policies[row.habit_id].policy_fingerprint
    &&& row.is_active == policies[row.habit_id].is_active
}

/// Whether there is a row for a habit.
pub open spec fn has_row(rows: Seq<ConfigurationRow>, habit_id: Uuid) -> bool {
    exists|k: int| 0 <= k < rows.len() && (#[trigger] rows[k]).habit_id == habit_id
}

/// The configurations of the habits, as the database takes them: one row for each habit.
pub fn configuration_rows(policies: &BTreeMap<Uuid, HabitMissedConfiguration>) -> (result: Result<
    Vec<ConfigurationRow>,
    HabitRepositoryError,
>)
    ensures
        match result {
            Ok(rows) => {
                &&& rows@.len() == policies@.len()
                &&& forall|k: int| 0 <= k < rows@.len() ==> row_holds(#[trigger] rows@[k], policies@)
                &&& forall|id: Uuid| policies@.contains_key(id) ==> #[trigger] has_row(rows@, id)
            },
            Err(error) => error == HabitRepositoryError::Internal && exists|id: Uuid| #[trigger]
                policies@.contains_key(id) && policies@[id].item_revision > i64::MAX,
        },
{
    let mut rows: Vec<ConfigurationRow> = Vec::new();
    for entry in it: policies.iter()
        invariant
            it.seq() == vstd::std_specs::iter::IteratorSpec::remaining(
                &vstd::std_specs::btree::spec_btree_map_iter(policies),
            ),
            rows@.len() == it.index(),
            forall|k: int| 0 <= k < it.index() ==> (#[trigger] rows@[k]).habit_id == *it.seq()[k].0,
            forall|k: int| 0 <= k < it.index() ==> row_holds(#[trigger] rows@[k], policies@),
    {
        assert(it.seq().contains(it.seq()[it.index()]));
        assert(policies@.contains_key(*entry.0) && policies@[*entry.0] == *entry.1);
        let item_revision: i64 = to_i64(entry.1.item_revision)?;
        rows.push(
            ConfigurationRow {
                habit_id: *entry.0,
                item_revision,
                policy_fingerprint: entry.1.policy_fingerprint,
                is_active: entry.1.is_active,
            },
        );
    }
    proof {
        let entries = vstd::std_specs::iter::IteratorSpec::remaining(
            &vstd::std_specs::btree::spec_btree_map_iter(policies),
        );
        assert forall|id: Uuid| policies@.contains_key(id) implies #[trigger] has_row(rows@, id) by {
            assert(entries.contains((&id, &policies@[id])));
            let k = choose|k: int| 0 <= k < entries.len() && entries[k] == (&id, &policies@[id]);
            assert(rows@[k].habit_id == id);
        }
    }
    Ok(rows)
}

/// What storing a decision writes beside the decision itself.
#[derive(Debug)]
pub struct ResolutionWrite {
    pub operation_id: Uuid,
    /// The revision that the stored decision must still have; zero if there is none.
    pub previous_revision: i64,
    pub revision: i64,
    pub columns: MissedActionColumns,
    pub explicit_selection: bool,
    pub audit: HabitAudit,
}

/// Whether storing a decision writes what belongs to it.
pub open spec fn write_tells(
    write: ResolutionWrite,
    operation_id: Uuid,
    previous_revision: u64,
    resolution: HabitMissedResolution,
    explicit_selection: bool,
) -> bool {
    &&& write.operation_id == operation_id
    &&& write.previous_revision == previous_revision
    &&& write.revision == resolution.revision
    &&& crate::habits::names::columns_hold(
        write.columns.action@,
        crate::habits::names::column_text(write.columns.cancellation_reason),
        crate::habits::names::column_text(write.columns.cancelled_resume_action),
        write.columns.carry_start,
        write.columns.carry_end,
        write.columns.suppressed@,
        resolution.action,
    )
    &&& write.explicit_selection == explicit_selection
    &&& crate::habits::outcomes::audit_tells(
        write.audit,
        "habit.missed.resolved"@,
        "habit_occurrence"@,
        resolution.occurrence_evidence_id,
        previous_revision,
        resolution.revision,
    )
}

/// What storing a decision writes beside the decision itself.
pub fn resolution_write(
    operation_id: Uuid,
    previous_revision: u64,
    resolution: &HabitMissedResolution,
    explicit_selection: bool,
) -> (result: Result<ResolutionWrite, HabitRepositoryError>)
    ensures
        match result {
            Ok(write) => write_tells(
                write,
                operation_id,
                previous_revision,
                *resolution,
                explicit_selection,
            ),
            Err(error) => (previous_revision > i64::MAX || resolution.revision > i64::MAX) && error
                == HabitRepositoryError::Internal,
        },
{
    let columns: MissedActionColumns = missed_action_columns(&resolution.action);
    let revision: i64 = to_i64(resolution.revision)?;
    let previous: i64 = to_i64(previous_revision)?;
    let audit: HabitAudit = audit_entry(
        "habit.missed.resolved",
        "habit_occurrence",
        resolution.occurrence_evidence_id,
        previous_revision,
        resolution.revision,
    )?;
    Ok(
        ResolutionWrite {
            operation_id,
            previous_revision: previous,
            revision,
            columns,
            explicit_selection,
            audit,
        },
    )
}

/// The occurrence with a decision in the place of what it had.
pub open spec fn with_resolution(
    occurrence: HabitOccurrence,
    resolution: HabitMissedResolution,
) -> HabitOccurrence {
    HabitOccurrence { missed_resolution: Some(resolution), ..occurrence }
}

/// The occurrence with its new decision, as the stream of changes carries it.
pub fn resolved_occurrence(
    occurrence: HabitOccurrence,
    resolution: HabitMissedResolution,
    content_valid: bool,
) -> (result: Result<HabitOccurrence, HabitRepositoryError>)
    ensures
        ({
            let resolved = with_resolution(occurrence, resolution);
            result == (if content_valid && crate::habits::receipts::parts_agree(resolved) {
                Ok::<HabitOccurrence, HabitRepositoryError>(resolved)
            } else {
                Err(HabitRepositoryError::Internal)
            })
        }),
{
    let resolved: HabitOccurrence = HabitOccurrence {
        evidence: occurrence.evidence,
        outcome: occurrence.outcome,
        missed_resolution: Some(resolution),
    };
    validate_occurrence(&resolved, content_valid)?;
    Ok(resolved)
}

/// What storing a decision writes, and the occurrence as subscribers are told of it.
#[derive(Debug)]
pub struct ResolutionChange {
    pub write: ResolutionWrite,
    pub updated: HabitOccurrence,
}

/// Stores the first decision about an occurrence.
///
/// `resolution_valid` and `content_valid` say whether the decision and the occurrence
/// with it satisfy the rules for them.
pub fn insert_new_missed_resolution(
    operation_id: Uuid,
    occurrence: HabitOccurrence,
    resolution: HabitMissedResolution,
    resolution_valid: bool,
    content_valid: bool,
) -> (result: Result<ResolutionChange, HabitRepositoryError>)
    ensures
        ({
            let accepted = {
                &&& resolution_valid
                &&& content_valid
                &&& occurrence.missed_resolution is None
                &&& resolution.revision <= i64::MAX
                &&& crate::habits::receipts::parts_agree(with_resolution(occurrence, resolution))
            };
            match result {
                Ok(change) => {
                    &&& accepted
                    &&& write_tells(change.write, operation_id, 0, resolution, false)
                    &&& change.updated == with_resolution(occurrence, resolution)
                },
                Err(error) => !accepted && error == HabitRepositoryError::Internal,
            }
        }),
{
    validate_resolution(resolution_valid)?;
    if occurrence.missed_resolution.is_some() {
        return Err(HabitRepositoryError::Internal);
    }
    let write: ResolutionWrite = resolution_write(operation_id, 0, &resolution, false)?;
    let updated: HabitOccurrence = resolved_occurrence(occurrence, resolution, content_valid)?;
    Ok(ResolutionChange { write, updated })
}

/// Stores a decision in the place of another one.
///
/// `transition_valid` says whether the one may follow the other, and
/// `explicit_transition_valid` whether it may where a person chose it.
pub fn update_missed_resolution(
    operation_id: Uuid,
    occurrence: HabitOccurrence,
    previous_revision: u64,
    resolution: HabitMissedResolution,
    explicit_selection: bool,
    transition_valid: bool,
    explicit_transition_valid: bool,
    content_valid: bool,
) -> (result: Result<ResolutionChange, HabitRepositoryError>)
    ensures
        ({
            let accepted = {
                &&& transition_valid || (explicit_selection && explicit_transition_valid)
                &&& content_valid
                &&& previous_revision <= i64::MAX
                &&& resolution.revision <= i64::MAX
                &&& crate::habits::receipts::parts_agree(with_resolution(occurrence, resolution))
            };
            match result {
                Ok(change) => {
                    &&& accepted
                    &&& write_tells(
                        change.write,
                        operation_id,
                        previous_revision,
                        resolution,
                        explicit_selection,
                    )
                    &&& change.updated == with_resolution(occurrence, resolution)
                },
                Err(error) => !accepted && error == HabitRepositoryError::Internal,
            }
        }),
{
    transition_allowed(transition_valid, explicit_selection, explicit_transition_valid)?;
    let write: ResolutionWrite = resolution_write(
        operation_id,
        previous_revision,
        &resolution,
        explicit_selection,
    )?;
    let updated: HabitOccurrence = resolved_occurrence(occurrence, resolution, content_valid)?;
    Ok(ResolutionChange { write, updated })
}

/// Whether an action is a reduction that waits for an occurrence to leave out.
fn waits(action: &HabitMissedResolutionAction) -> (result: bool)
    ensures
        result == (action is ReductionPending),
{
    match action {
        HabitMissedResolutionAction::ReductionPending => true,
        _ => false,
    }
}

/// How far a pass has come.
#[derive(Debug)]
pub struct ReconcileProgress {
    /// How many decisions the pass may make.
    pub limit: usize,
    /// The decisions that it has made.
    pub resolutions: Vec<HabitMissedResolution>,
    /// The occurrences whose decisions it has changed.
    pub transitioned: Vec<Uuid>,
    /// Whether it left something undone that another pass can do.
    pub deferred_pending_work: bool,
    /// Whether there was more to look at than it had room for.
    pub overflow: bool,
}

impl ReconcileProgress {
    /// Whether the pass has made no more decisions than it may make.
    pub open spec fn wf(self) -> bool {
        self.resolutions@.len() <= self.limit
    }

    /// How many decisions the pass may still make.
    pub open spec fn room(self) -> int {
        self.limit - self.resolutions@.len()
    }

    /// A pass that has not begun.
    pub fn new(limit: usize) -> (result: ReconcileProgress)
        ensures
            result.wf(),
            result.limit == limit,
            result.resolutions@.len() == 0,
            result.transitioned@.len() == 0,
            !result.deferred_pending_work,
            !result.overflow,
    {
        ReconcileProgress {
            limit,
            resolutions: Vec::new(),
            transitioned: Vec::new(),
            deferred_pending_work: false,
            overflow: false,
        }
    }

    /// How many decisions the pass may still make.
    pub fn capacity(&self) -> (result: usize)
        requires
            self.wf(),
        ensures
            result == self.room(),
    {
        self.limit - self.resolutions.len()
    }

    /// How many rows are read at the next stage of the pass: one more than there is
    /// room for.
    pub fn fetch_limit(&self) -> (result: Result<i64, HabitRepositoryError>)
        requires
            self.wf(),
        ensures
            match result {
                Ok(count) => count == if self.room() == usize::MAX {
                    usize::MAX as int
                } else {
                    self.room() + 1
                },
                Err(error) => self.room() >= i64::MAX && error == HabitRepositoryError::Internal,
            },
    {
        page_fetch_limit(self.capacity())
    }

    /// How many of the rows that were read are looked at. That there are more is kept
    /// in mind.
    pub fn take_rows(&mut self, rows: usize) -> (result: usize)
        requires
            old(self).wf(),
        ensures
            final(self).wf(),
            result <= rows,
            result <= old(self).room(),
            result == rows || result == old(self).room(),
            *final(self) == (ReconcileProgress {
                overflow: old(self).overflow || rows > old(self).room(),
                ..*old(self)
            }),
    {
        let capacity: usize = self.capacity();
        if rows > capacity {
            self.overflow = true;
            capacity
        } else {
            rows
        }
    }

    /// The pass after a decision was changed.
    pub open spec fn changed(
        self,
        after: ReconcileProgress,
        resolution: HabitMissedResolution,
        deferred: bool,
    ) -> bool {
        &&& after.limit == self.limit
        &&& after.resolutions@ == self.resolutions@.push(resolution)
        &&& after.transitioned@ == self.transitioned@.push(resolution.occurrence_evidence_id)
        &&& after.deferred_pending_work == (self.deferred_pending_work || deferred)
        &&& after.overflow == self.overflow
    }

    /// Puts an action in the place of a decision. `deferred` says whether another pass can go
    /// on with it.
    fn change(
        &mut self,
        current: &HabitMissedResolution,
        next: HabitMissedResolutionAction,
        deferred: bool,
        now: Instant,
    ) -> (result: Result<(), HabitRepositoryError>)
        requires
            old(self).wf(),
            old(self).room() > 0,
        ensures
            final(self).wf(),
            if current.revision >= i64::MAX {
                &&& result == Err::<(), HabitRepositoryError>(HabitRepositoryError::Internal)
                &&& *final(self) == *old(self)
            } else {
                &&& result == Ok::<(), HabitRepositoryError>(())
                &&& old(self).changed(
                    *final(self),
                    crate::habits::missed::next_resolution(*current, next, now),
                    deferred,
                )
            },
    {
        let resolution: HabitMissedResolution = advance_resolution(current, next, now)?;
        self.transitioned.push(resolution.occurrence_evidence_id);
        self.resolutions.push(resolution);
        if deferred {
            self.deferred_pending_work = true;
        }
        Ok(())
    }

    /// Changes a decision that was picked for maintenance, as `step` says.
    ///
    /// `derived` is the action that the rules of the policy of `step` give, if they give
    /// one; `reduction` is the reduction that is possible at present. Where the new action
    /// waits for a reduction though one is possible, another pass can go on with it.
    pub fn maintain(
        &mut self,
        occurrence: &HabitOccurrence,
        step: MissedStep,
        derived: Option<HabitMissedResolutionAction>,
        reduction: Result<HabitMissedResolutionAction, HabitRepositoryError>,
        now: Instant,
    ) -> (result: Result<(), HabitRepositoryError>)
        requires
            old(self).wf(),
            old(self).room() > 0,
        ensures
            final(self).wf(),
            match occurrence.missed_resolution {
                None => {
                    &&& result == Err::<(), HabitRepositoryError>(HabitRepositoryError::Internal)
                    &&& *final(self) == *old(self)
                },
                Some(current) => match crate::habits::missed::action_of_step(
                    step,
                    derived,
                    reduction,
                ) {
                    Err(error) => {
                        &&& result == Err::<(), HabitRepositoryError>(error)
                        &&& *final(self) == *old(self)
                    },
                    Ok(None) => {
                        &&& result == Err::<(), HabitRepositoryError>(
                            HabitRepositoryError::EvidenceConflict,
                        )
                        &&& *final(self) == *old(self)
                    },
                    Ok(Some(next)) => if next is ReductionPending && reduction is Err
                        && !(reduction->Err_0 is MissedReductionUnavailable) {
                        &&& result == Err::<(), HabitRepositoryError>(reduction->Err_0)
                        &&& *final(self) == *old(self)
                    } else if current.revision >= i64::MAX {
                        &&& result == Err::<(), HabitRepositoryError>(
                            HabitRepositoryError::Internal,
                        )
                        &&& *final(self) == *old(self)
                    } else {
                        &&& result == Ok::<(), HabitRepositoryError>(())
                        &&& old(self).changed(
                            *final(self),
                            crate::habits::missed::next_resolution(current, next, now),
                            next is ReductionPending && reduction is Ok,
                        )
                    },
                },
            },
    {
        let current: &HabitMissedResolution = match &occurrence.missed_resolution {
            Some(current) => current,
            None => {
                return Err(HabitRepositoryError::Internal);
            },
        };
        let (next, binds): (HabitMissedResolutionAction, bool) = match step {
            MissedStep::Keep => {
                return Err(HabitRepositoryError::EvidenceConflict);
            },
            MissedStep::Replace(action) => (action, false),
            MissedStep::Derive { binds_reduction, .. } => match derived {
                Some(action) => (action, binds_reduction),
                None => {
                    return Err(HabitRepositoryError::Internal);
                },
            },
        };
        if !waits(&next) {
            return self.change(current, next, false, now);
        }
        match reduction {
            Ok(action) => if binds {
                let deferred: bool = waits(&action);
                self.change(current, action, deferred, now)
            } else {
                self.change(current, next, true, now)
            },
            Err(HabitRepositoryError::MissedReductionUnavailable) => self.change(
                current,
                next,
                false,
                now,
            ),
            Err(error) => Err(error),
        }
    }

    /// Binds a reduction that waits to an occurrence that became available. Where none
    /// is available after all, another pass is needed. The result says whether the
    /// decision was changed.
    pub fn bind(
        &mut self,
        occurrence: &HabitOccurrence,
        reduction: Result<HabitMissedResolutionAction, HabitRepositoryError>,
        now: Instant,
    ) -> (result: Result<bool, HabitRepositoryError>)
        requires
            old(self).wf(),
            old(self).room() > 0,
        ensures
            final(self).wf(),
            match occurrence.missed_resolution {
                None => {
                    &&& result == Err::<bool, HabitRepositoryError>(HabitRepositoryError::Internal)
                    &&& *final(self) == *old(self)
                },
                Some(current) => match reduction {
                    Ok(action) => if current.revision >= i64::MAX {
                        &&& result == Err::<bool, HabitRepositoryError>(
                            HabitRepositoryError::Internal,
                        )
                        &&& *final(self) == *old(self)
                    } else {
                        &&& result == Ok::<bool, HabitRepositoryError>(true)
                        &&& old(self).changed(
                            *final(self),
                            crate::habits::missed::next_resolution(current, action, now),
                            false,
                        )
                    },
                    Err(HabitRepositoryError::MissedReductionUnavailable) => {
                        &&& result == Ok::<bool, HabitRepositoryError>(false)
                        &&& *final(self) == (ReconcileProgress {
                            deferred_pending_work: true,
                            ..*old(self)
                        })
                    },
                    Err(error) => {
                        &&& result == Err::<bool, HabitRepositoryError>(error)
                        &&& *final(self) == *old(self)
                    },
                },
            },
    {
        let current: &HabitMissedResolution = match &occurrence.missed_resolution {
            Some(current) => current,
            None => {
                return Err(HabitRepositoryError::Internal);
            },
        };
        let action: HabitMissedResolutionAction = match reduction {
            Ok(action) => action,
            Err(HabitRepositoryError::MissedReductionUnavailable) => {
                self.deferred_pending_work = true;
                return Ok(false);
            },
            Err(error) => {
                return Err(error);
            },
        };
        let resolution: HabitMissedResolution = advance_resolution(current, action, now)?;
        self.transitioned.push(resolution.occurrence_evidence_id);
        self.resolutions.push(resolution);
        Ok(true)
    }

    /// Takes the first decision about a missed occurrence.
    ///
    /// `stored_policy` is the policy that the item of the habit holds, if it can be
    /// read: it must be the one that the pass was made for. `action` is what follows
    /// from it, and `content_valid` says whether the decision satisfies the rules for
    /// decisions.
    pub fn open_case(
        &mut self,
        occurrence: &HabitOccurrence,
        configuration: &HabitMissedConfiguration,
        stored_policy: Option<HabitMissedPolicy>,
        action: Result<HabitMissedResolutionAction, HabitRepositoryError>,
        content_valid: bool,
        now: Instant,
    ) -> (result: Result<(), HabitRepositoryError>)
        requires
            old(self).wf(),
            old(self).room() > 0,
        ensures
            final(self).wf(),
            match result {
                Ok(_) => {
                    &&& stored_policy == Some(configuration.policy)
                    &&& action is Ok
                    &&& content_valid
                    &&& occurrence.missed_resolution is None
                    &&& final(self).limit == old(self).limit
                    &&& final(self).resolutions@ == old(self).resolutions@.push(
                        crate::habits::missed::first_resolution(
                            *occurrence,
                            configuration.policy,
                            action->Ok_0,
                            now,
                        ),
                    )
                    &&& final(self).transitioned@ == old(self).transitioned@
                    &&& final(self).deferred_pending_work == old(self).deferred_pending_work
                    &&& final(self).overflow == old(self).overflow
                },
                Err(error) => {
                    &&& *final(self) == *old(self)
                    &&& if stored_policy is None {
                        error == HabitRepositoryError::Internal
                    } else if stored_policy->0 != configuration.policy {
                        error == HabitRepositoryError::EvidenceConflict
                    } else if action is Err {
                        error == action->Err_0
                    } else {
                        &&& error == HabitRepositoryError::Internal
                        &&& !content_valid || occurrence.missed_resolution is Some
                    }
                },
            },
    {
        match stored_policy {
            None => {
                return Err(HabitRepositoryError::Internal);
            },
            Some(policy) => {
                if policy != configuration.policy {
                    return Err(HabitRepositoryError::EvidenceConflict);
                }
            },
        }
        let taken: HabitMissedResolutionAction = match action {
            Ok(taken) => taken,
            Err(error) => {
                return Err(error);
            },
        };
        validate_resolution(content_valid)?;
        if occurrence.missed_resolution.is_some() {
            return Err(HabitRepositoryError::Internal);
        }
        self.resolutions.push(new_resolution(occurrence, configuration.policy, taken, now));
        Ok(())
    }

    /// What the pass is answered, and whether the answer is kept for good: an answer
    /// that says that there was nothing to do is kept for a while only.
    pub fn finish(self, content_valid: bool) -> (result: Result<
        (HabitMissedReconcileResult, bool),
        HabitRepositoryError,
    >)
        ensures
            match result {
                Ok((answer, permanent)) => {
                    &&& answer.resolutions == self.resolutions
                    &&& answer.has_more == (self.overflow || self.deferred_pending_work)
                    &&& permanent == (self.resolutions@.len() > 0 || answer.has_more)
                    &&& StoredReceipt::MissedReconcile(answer).sound(content_valid)
                },
                Err(error) => {
                    &&& error == HabitRepositoryError::Internal
                    &&& !StoredReceipt::MissedReconcile(
                        HabitMissedReconcileResult {
                            resolutions: self.resolutions,
                            has_more: self.overflow || self.deferred_pending_work,
                        },
                    ).sound(content_valid)
                },
            },
    {
        let has_more: bool = self.overflow || self.deferred_pending_work;
        let permanent: bool = self.resolutions.len() > 0 || has_more;
        let receipt: StoredReceipt = StoredReceipt::MissedReconcile(
            HabitMissedReconcileResult { resolutions: self.resolutions, has_more },
        );
        receipt.validate(content_valid)?;
        match receipt {
            StoredReceipt::MissedReconcile(answer) => Ok((answer, permanent)),
            _ => Err(HabitRepositoryError::Internal),
        }
    }
}

/// The item behind a habit, as a person's choice for a missed occurrence looks at it.
#[derive(Debug)]
pub struct HabitItemState {
    pub revision: i64,
    pub status: String,
    pub trashed: bool,
    pub has_recurrence: bool,
    pub is_leaf: bool,
    /// Whether the policy for missed occurrences can be read from its constraints.
    pub policy_readable: bool,
}

/// Whether a status ends an item or blocks it.
pub open spec fn closed_status_text(status: Seq<char>) -> bool {
    status == "completed"@ || status == "skipped"@ || status == "cancelled"@ || status
        == "blocked"@
}

/// Whether a status ends an item or blocks it.
pub fn is_closed_status(status: &str) -> (result: bool)
    ensures
        result == closed_status_text(status@),
{
    same_text(status, "completed") || same_text(status, "skipped") || same_text(
        status,
        "cancelled",
    ) || same_text(status, "blocked")
}

/// Whether a habit produces occurrences at present.
pub open spec fn item_active(item: HabitItemState) -> bool {
    !item.trashed && item.has_recurrence && item.is_leaf && !closed_status_text(item.status@)
}

/// What is known of the habit by the one who chooses, as a configuration.
pub open spec fn assumed_configuration(write: MissedResolveWrite) -> HabitMissedConfiguration {
    HabitMissedConfiguration {
        item_revision: write.current_item_revision,
        policy_fingerprint: write.current_policy_fingerprint,
        policy: HabitMissedPolicy::Ask,
        is_active: write.current_item_is_active,
    }
}

/// Why a choice for a missed occurrence is refused.
pub open spec fn resolve_refusal(
    item: Option<HabitItemState>,
    occurrence: Option<HabitOccurrence>,
    write: MissedResolveWrite,
) -> Option<HabitRepositoryError> {
    match item {
        None => Some(HabitRepositoryError::HabitNotFound(write.habit_id)),
        Some(state) => if !state.policy_readable || state.revision < 0 {
            Some(HabitRepositoryError::Internal)
        } else if state.revision != write.current_item_revision || item_active(state)
            != write.current_item_is_active {
            Some(HabitRepositoryError::EvidenceConflict)
        } else {
            match occurrence {
                None => Some(HabitRepositoryError::MissedResolutionNotFound(write.occurrence_id)),
                Some(found) => match found.missed_resolution {
                    None => Some(
                        HabitRepositoryError::MissedResolutionNotFound(write.occurrence_id),
                    ),
                    Some(current) => if current.revision != write.expected_revision {
                        Some(
                            HabitRepositoryError::RevisionConflict {
                                expected: write.expected_revision,
                                actual: current.revision,
                                current_occurrence: Some(Box::new(found)),
                                current_pause: None,
                            },
                        )
                    } else if !(current.action is DecisionRequired) {
                        Some(
                            HabitRepositoryError::MissedResolutionAlreadyResolved(
                                Box::new(current),
                            ),
                        )
                    } else {
                        None
                    },
                },
            }
        },
    }
}

/// What takes the place of a decision that a person made: what was chosen, or a
/// cancellation that remembers the choice where nothing is to be done any more.
pub open spec fn resolve_action_step(
    occurrence: HabitOccurrence,
    pauses: Seq<HabitPause>,
    write: MissedResolveWrite,
) -> MissedStep {
    match crate::habits::missed::cancellation_reason(
        occurrence,
        assumed_configuration(write),
        None,
        pauses,
    ) {
        Some(reason) => MissedStep::Replace(
            HabitMissedResolutionAction::Cancelled {
                reason,
                resume_action: crate::habits::missed::resume_of_choice(write.action),
            },
        ),
        None => MissedStep::Derive {
            policy: crate::habits::missed::policy_of_choice(write.action),
            binds_reduction: true,
        },
    }
}

/// What a choice for a missed occurrence is answered: what it was answered before, or
/// what takes the place of the open decision.
#[derive(Debug)]
pub enum ResolveStep {
    Replayed(HabitMissedResolution),
    Decide { occurrence: HabitOccurrence, step: MissedStep },
}

/// What a choice for a missed occurrence is answered.
///
/// `receipt` is what the request was answered before; `item`, `occurrence` and `pauses`
/// are the habit, the occurrence and the pauses of the habit as they are at present.
pub fn resolve_missed(
    receipt: Option<StoredReceipt>,
    item: Option<HabitItemState>,
    occurrence: Option<HabitOccurrence>,
    pauses: &Vec<HabitPause>,
    write: &MissedResolveWrite,
) -> (result: Result<ResolveStep, HabitRepositoryError>)
    ensures
        match receipt {
            Some(StoredReceipt::MissedResolution(value)) => result == Ok::<
                ResolveStep,
                HabitRepositoryError,
            >(ResolveStep::Replayed(value)),
            Some(_) => result == Err::<ResolveStep, HabitRepositoryError>(
                HabitRepositoryError::IdempotencyConflict,
            ),
            None => match resolve_refusal(item, occurrence, *write) {
                Some(error) => result == Err::<ResolveStep, HabitRepositoryError>(error),
                None => result == Ok::<ResolveStep, HabitRepositoryError>(
                    ResolveStep::Decide {
                        occurrence: occurrence->0,
                        step: resolve_action_step(occurrence->0, pauses@, *write),
                    },
                ),
            },
        },
{
    match replay_missed_resolution(receipt) {
        Ok(Some(value)) => {
            return Ok(ResolveStep::Replayed(value));
        },
        Ok(None) => {},
        Err(error) => {
            return Err(error);
        },
    }
    let state: HabitItemState = match item {
        Some(state) => state,
        None => {
            return Err(HabitRepositoryError::HabitNotFound(write.habit_id));
        },
    };
    if !state.policy_readable {
        return Err(HabitRepositoryError::Internal);
    }
    let revision: u64 = from_i64(state.revision)?;
    if revision != write.current_item_revision {
        return Err(HabitRepositoryError::EvidenceConflict);
    }
    let active: bool = !state.trashed && state.has_recurrence && state.is_leaf
        && !is_closed_status(state.status.as_str());
    if active != write.current_item_is_active {
        return Err(HabitRepositoryError::EvidenceConflict);
    }
    let found: HabitOccurrence = match occurrence {
        Some(found) => found,
        None => {
            return Err(HabitRepositoryError::MissedResolutionNotFound(write.occurrence_id));
        },
    };
    let (current_revision, undecided): (u64, bool) = match &found.missed_resolution {
        Some(current) => (
            current.revision,
            match &current.action {
                HabitMissedResolutionAction::DecisionRequired => true,
                _ => false,
            },
        ),
        None => {
            return Err(HabitRepositoryError::MissedResolutionNotFound(write.occurrence_id));
        },
    };
    if current_revision != write.expected_revision {
        return Err(
            HabitRepositoryError::RevisionConflict {
                expected: write.expected_revision,
                actual: current_revision,
                current_occurrence: Some(Box::new(found)),
                current_pause: None,
            },
        );
    }
    if !undecided {
        return match found.missed_resolution {
            Some(current) => Err(
                HabitRepositoryError::MissedResolutionAlreadyResolved(Box::new(current)),
            ),
            None => Err(HabitRepositoryError::Internal),
        };
    }
    let configuration: HabitMissedConfiguration = HabitMissedConfiguration {
        item_revision: write.current_item_revision,
        policy_fingerprint: write.current_policy_fingerprint,
        policy: HabitMissedPolicy::Ask,
        is_active: write.current_item_is_active,
    };
    let step: MissedStep = match source_cancellation_reason(&found, &configuration, None, pauses) {
        Some(reason) => MissedStep::Replace(
            HabitMissedResolutionAction::Cancelled {
                reason,
                resume_action: explicit_resume_action(write.action),
            },
        ),
        None => MissedStep::Derive { policy: explicit_policy(write.action), binds_reduction: true },
    };
    Ok(ResolveStep::Decide { occurrence: found, step })
}

/// Whether an action is the cancellation of a choice, which is not the same as the
/// cancellation of an open question.
pub open spec fn cancels_choice(action: HabitMissedResolutionAction) -> bool {
    match action {
        HabitMissedResolutionAction::Cancelled { resume_action, .. } => resume_action
            != HabitMissedResumeAction::DecisionRequired,
        _ => false,
    }
}

/// Whether an action is the cancellation of a choice.
pub fn is_explicit_selection(action: &HabitMissedResolutionAction) -> (result: bool)
    ensures
        result == cancels_choice(*action),
{
    match action {
        HabitMissedResolutionAction::Cancelled { resume_action, .. } => *resume_action
            != HabitMissedResumeAction::DecisionRequired,
        _ => false,
    }
}

/// The decision that a choice leads to, and whether it is the cancellation of a choice.
///
/// `step` is what takes the place of the open decision of `occurrence`. `derived` is the
/// action that the rules of the policy of `step` give, if they give one; `reduction` is the
/// reduction that is possible at present.
pub fn chosen_resolution(
    occurrence: &HabitOccurrence,
    step: MissedStep,
    derived: Option<HabitMissedResolutionAction>,
    reduction: Result<HabitMissedResolutionAction, HabitRepositoryError>,
    now: Instant,
) -> (result: Result<(HabitMissedResolution, bool), HabitRepositoryError>)
    ensures
        match (
            occurrence.missed_resolution,
            crate::habits::missed::action_of_step(step, derived, reduction),
        ) {
            (Some(_), Err(error)) => result == Err::<
                (HabitMissedResolution, bool),
                HabitRepositoryError,
            >(error),
            (Some(current), Ok(Some(action))) if current.revision < i64::MAX => result == Ok::<
                (HabitMissedResolution, bool),
                HabitRepositoryError,
            >(
                (
                    crate::habits::missed::next_resolution(current, action, now),
                    cancels_choice(action),
                ),
            ),
            _ => result == Err::<(HabitMissedResolution, bool), HabitRepositoryError>(
                HabitRepositoryError::Internal,
            ),
        },
{
    let current: &HabitMissedResolution = match &occurrence.missed_resolution {
        Some(current) => current,
        None => {
            return Err(HabitRepositoryError::Internal);
        },
    };
    match maintained_action(step, derived, reduction) {
        Ok(Some(action)) => {
            let explicit: bool = is_explicit_selection(&action);
            match advance_resolution(current, action, now) {
                Ok(resolution) => Ok((resolution, explicit)),
                Err(error) => Err(error),
            }
        },
        Ok(None) => Err(HabitRepositoryError::Internal),
        Err(error) => Err(error),
    }
}

/// A choice for an occurrence of a habit that produces no occurrences any more is no
/// error: it is kept as a cancellation that remembers the choice.
pub proof fn choice_for_inactive_habit_is_kept(
    occurrence: HabitOccurrence,
    pauses: Seq<HabitPause>,
    write: MissedResolveWrite,
)
    requires
        !write.current_item_is_active,
    ensures
        resolve_action_step(occurrence, pauses, write) == MissedStep::Replace(
            HabitMissedResolutionAction::Cancelled {
                reason: HabitMissedCancellationReason::SourceObsolete,
                resume_action: crate::habits::missed::resume_of_choice(write.action),
            },
        ),
        cancels_choice(
            resolve_action_step(occurrence, pauses, write)->Replace_0,
        ),
{
}

} // verus!
