//! What about a change set asks for the owner's attention.
use vstd::prelude::*;

use crate::items::commands::TransactionalItemEffect;
use crate::items::model::{
    same_dependencies, same_optional_json, DeadlineKind, DeadlineStrength, Item,
};
use crate::proposals::application::{
    ProposalCommand, ProposalRisk, ProposalRiskCode, ProposalRiskLevel,
};
use crate::text::{decimal, joined};
use crate::time::{CalendarDate, Instant, Uuid};

verus! {

/// The part of an item's deadline that counts, given its kind.
#[derive(Clone, Copy, Debug, PartialEq, Eq, Structural)]
pub struct DeadlineRiskShape {
    pub kind: DeadlineKind,
    pub date: Option<CalendarDate>,
    pub instant: Option<Instant>,
    pub strength: Option<DeadlineStrength>,
    pub soft_weight: Option<u32>,
}

/// How a deadline changed.
#[derive(Clone, Copy, Debug, PartialEq, Eq, Structural)]
pub enum DeadlineRiskChange {
    Changed,
    Relaxed,
}

/// The part of a deadline that counts: the day or the instant, whichever the kind
/// asks for, and the weight of a soft one. Without a deadline nothing counts.
pub open spec fn deadline_shape(
    kind: DeadlineKind,
    date: Option<CalendarDate>,
    instant: Option<Instant>,
    strength: Option<DeadlineStrength>,
    soft_weight: Option<u32>,
) -> DeadlineRiskShape {
    DeadlineRiskShape {
        kind,
        date: if kind == DeadlineKind::Date {
            date
        } else {
            None
        },
        instant: if kind == DeadlineKind::DateTime {
            instant
        } else {
            None
        },
        strength: if kind == DeadlineKind::Absent {
            None
        } else {
            strength
        },
        soft_weight: if kind != DeadlineKind::Absent && strength == Some(DeadlineStrength::Soft) {
            soft_weight
        } else {
            None
        },
    }
}

/// The part of an item's deadline that counts.
pub open spec fn item_deadline_shape(item: Item) -> DeadlineRiskShape {
    deadline_shape(
        item.deadline_kind,
        item.deadline_date,
        item.deadline_at,
        item.deadline_strength,
        item.deadline_soft_weight,
    )
}

impl DeadlineRiskShape {
    /// The part of a deadline that counts.
    pub fn new(
        kind: DeadlineKind,
        date: Option<CalendarDate>,
        instant: Option<Instant>,
        strength: Option<DeadlineStrength>,
        soft_weight: Option<u32>,
    ) -> (result: DeadlineRiskShape)
        ensures
            result == deadline_shape(kind, date, instant, strength, soft_weight),
    {
        let weight: Option<u32> = if strength == Some(DeadlineStrength::Soft) {
            soft_weight
        } else {
            None
        };
        match kind {
            DeadlineKind::Absent => DeadlineRiskShape {
                kind,
                date: None,
                instant: None,
                strength: None,
                soft_weight: None,
            },
            DeadlineKind::Date => DeadlineRiskShape {
                kind,
                date,
                instant: None,
                strength,
                soft_weight: weight,
            },
            DeadlineKind::DateTime => DeadlineRiskShape {
                kind,
                date: None,
                instant,
                strength,
                soft_weight: weight,
            },
        }
    }

    /// The part of an item's deadline that counts.
    pub fn from_item(item: &Item) -> (result: DeadlineRiskShape)
        ensures
            result == item_deadline_shape(*item),
    {
        DeadlineRiskShape::new(
            item.deadline_kind,
            item.deadline_date,
            item.deadline_at,
            item.deadline_strength,
            item.deadline_soft_weight,
        )
    }
}

/// Whether a change of a deadline takes pressure off: it is removed, moved to a later
/// day or instant, made soft, or given less weight.
pub open spec fn relaxes(before: DeadlineRiskShape, after: DeadlineRiskShape) -> bool {
    ||| before.kind != DeadlineKind::Absent && after.kind == DeadlineKind::Absent
    ||| before.kind == DeadlineKind::Date && after.kind == DeadlineKind::Date && match (
        before.date,
        after.date,
    ) {
        (Some(was), Some(is)) => was.before(is),
        _ => false,
    }
    ||| before.kind == DeadlineKind::DateTime && after.kind == DeadlineKind::DateTime && match (
        before.instant,
        after.instant,
    ) {
        (Some(was), Some(is)) => was < is,
        _ => false,
    }
    ||| before.kind != DeadlineKind::Absent && after.kind != DeadlineKind::Absent && {
        ||| before.strength == Some(DeadlineStrength::Hard) && after.strength == Some(
            DeadlineStrength::Soft,
        )
        ||| before.strength == Some(DeadlineStrength::Soft) && after.strength == Some(
            DeadlineStrength::Soft,
        ) && match (before.soft_weight, after.soft_weight) {
            (Some(was), Some(is)) => is < was,
            _ => false,
        }
    }
}

/// How a deadline changed: not at all, by relaxation only, or in some other way. A
/// change tightens a deadline where the opposite change would relax it.
pub open spec fn deadline_change(before: DeadlineRiskShape, after: DeadlineRiskShape) -> Option<
    DeadlineRiskChange,
> {
    if before == after {
        None
    } else if relaxes(before, after) && !relaxes(after, before) {
        Some(DeadlineRiskChange::Relaxed)
    } else {
        Some(DeadlineRiskChange::Changed)
    }
}

/// How a deadline changed.
pub fn classify_deadline_risk_change(
    before: &DeadlineRiskShape,
    after: &DeadlineRiskShape,
) -> (result: Option<DeadlineRiskChange>)
    ensures
        result == deadline_change(*before, *after),
{
    if *before == *after {
        return None;
    }
    let mut relaxed: bool = false;
    let mut tightened: bool = false;
    match (before.kind, after.kind) {
        (DeadlineKind::Absent, DeadlineKind::Absent) => {},
        (DeadlineKind::Absent, _) => {
            tightened = true;
        },
        (_, DeadlineKind::Absent) => {
            relaxed = true;
        },
        (DeadlineKind::Date, DeadlineKind::Date) => match (before.date, after.date) {
            (Some(was), Some(is)) => {
                relaxed = was.is_before(&is);
                tightened = is.is_before(&was);
            },
            _ => {},
        },
        (DeadlineKind::DateTime, DeadlineKind::DateTime) => match (before.instant, after.instant) {
            (Some(was), Some(is)) => {
                relaxed = was < is;
                tightened = is < was;
            },
            _ => {},
        },
        _ => {},
    }
    if before.kind != DeadlineKind::Absent && after.kind != DeadlineKind::Absent {
        match (before.strength, after.strength) {
            (Some(DeadlineStrength::Hard), Some(DeadlineStrength::Soft)) => {
                relaxed = true;
            },
            (Some(DeadlineStrength::Soft), Some(DeadlineStrength::Hard)) => {
                tightened = true;
            },
            (Some(DeadlineStrength::Soft), Some(DeadlineStrength::Soft)) => match (
                before.soft_weight,
                after.soft_weight,
            ) {
                (Some(was), Some(is)) => {
                    if is < was {
                        relaxed = true;
                    }
                    if was < is {
                        tightened = true;
                    }
                },
                _ => {},
            },
            _ => {},
        }
    }
    Some(
        if relaxed && !tightened {
            DeadlineRiskChange::Relaxed
        } else {
            DeadlineRiskChange::Changed
        },
    )
}

/// How the deadline of an item changed.
pub fn deadline_risk_change(before: &Item, after: &Item) -> (result: Option<DeadlineRiskChange>)
    ensures
        result == deadline_change(item_deadline_shape(*before), item_deadline_shape(*after)),
{
    classify_deadline_risk_change(
        &DeadlineRiskShape::from_item(before),
        &DeadlineRiskShape::from_item(after),
    )
}

/// A pure relaxation, taken back, is never one itself.
pub proof fn relaxation_is_one_way(before: DeadlineRiskShape, after: DeadlineRiskShape)
    requires
        deadline_change(before, after) == Some(DeadlineRiskChange::Relaxed),
    ensures
        deadline_change(after, before) == Some(DeadlineRiskChange::Changed),
{
}

/// Whatever the fields hold, an item without a deadline has no deadline that could
/// change.
pub proof fn absent_deadlines_do_not_differ(
    date: Option<CalendarDate>,
    instant: Option<Instant>,
    strength: Option<DeadlineStrength>,
    weight: Option<u32>,
    other_date: Option<CalendarDate>,
    other_instant: Option<Instant>,
    other_strength: Option<DeadlineStrength>,
    other_weight: Option<u32>,
)
    ensures
        deadline_change(
            deadline_shape(DeadlineKind::Absent, date, instant, strength, weight),
            deadline_shape(
                DeadlineKind::Absent,
                other_date,
                other_instant,
                other_strength,
                other_weight,
            ),
        ) is None,
{
}

/// A risk with the characters of its summary.
pub ghost struct RiskView {
    pub code: ProposalRiskCode,
    pub level: ProposalRiskLevel,
    pub command_id: Option<Uuid>,
    pub item_id: Option<Uuid>,
    pub requires_explicit_approval: bool,
    pub summary: Seq<char>,
}

impl View for ProposalRisk {
    type V = RiskView;

    open spec fn view(&self) -> RiskView {
        RiskView {
            code: self.code,
            level: self.level,
            command_id: self.command_id,
            item_id: self.item_id,
            requires_explicit_approval: self.requires_explicit_approval,
            summary: self.summary@,
        }
    }
}

/// Whether the item of an effect is or was sensitive.
pub open spec fn sensitive_effect(effect: TransactionalItemEffect) -> bool {
    effect.after.is_sensitive || match effect.before {
        Some(before) => before.is_sensitive,
        None => false,
    }
}

/// The risk that a command has by what it does, and by the sensitivity of its item.
pub open spec fn operation_risk(
    command: ProposalCommand,
    effect: Option<TransactionalItemEffect>,
) -> RiskView {
    let sensitive = match effect {
        Some(found) => sensitive_effect(found),
        None => false,
    };
    let (code, level, approval, summary) = match command {
        ProposalCommand::CreateItem { .. } => (
            ProposalRiskCode::CreatesItem,
            ProposalRiskLevel::Low,
            false,
            "Creates a reversible local item."@,
        ),
        ProposalCommand::ReplaceItem { .. } => (
            ProposalRiskCode::ReplacesItem,
            ProposalRiskLevel::Medium,
            true,
            "Replaces the current local item fields."@,
        ),
        ProposalCommand::TrashItem { .. } => (
            ProposalRiskCode::TrashesItem,
            ProposalRiskLevel::High,
            true,
            "Moves a local item to Trash."@,
        ),
        ProposalCommand::RestoreItem { .. } => (
            ProposalRiskCode::RestoresItem,
            ProposalRiskLevel::Medium,
            true,
            "Restores a previously trashed local item."@,
        ),
    };
    RiskView {
        code: if sensitive {
            ProposalRiskCode::SensitiveContent
        } else {
            code
        },
        level: if sensitive && level == ProposalRiskLevel::Low {
            ProposalRiskLevel::Medium
        } else {
            level
        },
        command_id: Some(command.spec_command_id()),
        item_id: Some(command.spec_target()),
        requires_explicit_approval: approval || sensitive,
        summary: if sensitive {
            "Changes an item marked sensitive. Content remains inside the owner boundary."@
        } else {
            summary
        },
    }
}

/// A risk of a command that needs the owner's explicit approval.
pub open spec fn command_risk(
    command: ProposalCommand,
    code: ProposalRiskCode,
    level: ProposalRiskLevel,
    summary: Seq<char>,
) -> RiskView {
    RiskView {
        code,
        level,
        command_id: Some(command.spec_command_id()),
        item_id: Some(command.spec_target()),
        requires_explicit_approval: true,
        summary,
    }
}

/// The sequence of one risk, if the condition holds.
pub open spec fn risk_if(condition: bool, risk: RiskView) -> Seq<RiskView> {
    if condition {
        seq![risk]
    } else {
        Seq::empty()
    }
}

/// Whether a command creates an item beneath a parent.
pub open spec fn creates_child(command: ProposalCommand) -> bool {
    match command {
        ProposalCommand::CreateItem { item, .. } => item.parent_id is Some,
        _ => false,
    }
}

/// Whether the predecessors of an item changed. Those of a new item did, if it has
/// any.
pub open spec fn dependencies_changed(effect: TransactionalItemEffect) -> bool {
    match effect.before {
        None => effect.after.dependencies@.len() > 0,
        Some(before) => before.dependencies@ != effect.after.dependencies@,
    }
}

/// The risks that the change of an existing item has by what it changes.
pub open spec fn material_risks(command: ProposalCommand, before: Item, after: Item) -> Seq<
    RiskView,
> {
    let deadline = deadline_change(item_deadline_shape(before), item_deadline_shape(after));
    risk_if(
        deadline is Some,
        if deadline == Some(DeadlineRiskChange::Relaxed) {
            command_risk(
                command,
                ProposalRiskCode::RelaxesDeadline,
                ProposalRiskLevel::Medium,
                "Relaxes or removes the current deadline."@,
            )
        } else {
            command_risk(
                command,
                ProposalRiskCode::ChangesDeadline,
                ProposalRiskLevel::Medium,
                "Changes the current deadline."@,
            )
        },
    ) + risk_if(
        before.parent_id != after.parent_id || before.sibling_order != after.sibling_order,
        command_risk(
            command,
            ProposalRiskCode::ChangesHierarchy,
            ProposalRiskLevel::High,
            "Moves the item within the goal hierarchy."@,
        ),
    ) + risk_if(
        !crate::json::optional_json_same(before.recurrence, after.recurrence),
        command_risk(
            command,
            ProposalRiskCode::ChangesRecurrence,
            ProposalRiskLevel::High,
            "Changes the recurrence definition."@,
        ),
    ) + risk_if(
        before.status != after.status,
        command_risk(
            command,
            ProposalRiskCode::ChangesExecutionState,
            ProposalRiskLevel::Medium,
            "Changes the item's execution state."@,
        ),
    ) + risk_if(
        before.is_sensitive != after.is_sensitive,
        command_risk(
            command,
            ProposalRiskCode::ChangesSensitivity,
            ProposalRiskLevel::High,
            "Changes the item's sensitivity boundary."@,
        ),
    )
}

/// The risks that a command has by its effect.
pub open spec fn effect_risks(command: ProposalCommand, effect: TransactionalItemEffect) -> Seq<
    RiskView,
> {
    risk_if(
        creates_child(command),
        command_risk(
            command,
            ProposalRiskCode::ChangesHierarchy,
            ProposalRiskLevel::High,
            "Adds an item beneath an existing or proposed hierarchy parent."@,
        ),
    ) + risk_if(
        dependencies_changed(effect),
        command_risk(
            command,
            ProposalRiskCode::ChangesDependencies,
            ProposalRiskLevel::High,
            "Changes which items constrain this item's schedule."@,
        ),
    ) + match effect.before {
        Some(before) => material_risks(command, before, effect.after),
        None => Seq::empty(),
    }
}

/// The risks that the first `count` commands have by their effects.
pub open spec fn effects_risks(
    commands: Seq<ProposalCommand>,
    effects: Seq<TransactionalItemEffect>,
    count: nat,
) -> Seq<RiskView>
    decreases count,
{
    if count == 0 {
        Seq::empty()
    } else {
        effects_risks(commands, effects, (count - 1) as nat) + effect_risks(
            commands[count - 1],
            effects[count - 1],
        )
    }
}

/// The effect at `k`, if there is one.
pub open spec fn effect_at(effects: Seq<TransactionalItemEffect>, k: int) -> Option<
    TransactionalItemEffect,
> {
    if 0 <= k < effects.len() {
        Some(effects[k])
    } else {
        None
    }
}

/// The risks of a change set: one for each command by what it does, then those by
/// what the commands change, and one for a batch of more than one command.
pub open spec fn change_set_risks(
    commands: Seq<ProposalCommand>,
    effects: Seq<TransactionalItemEffect>,
) -> Seq<RiskView> {
    Seq::new(commands.len(), |k: int| operation_risk(commands[k], effect_at(effects, k)))
        + effects_risks(
        commands,
        effects,
        if commands.len() <= effects.len() {
            commands.len()
        } else {
            effects.len()
        },
    ) + risk_if(
        commands.len() > 1,
        RiskView {
            code: ProposalRiskCode::BulkChange,
            level: ProposalRiskLevel::Medium,
            command_id: None,
            item_id: None,
            requires_explicit_approval: true,
            summary: "Applies "@ + crate::text::decimal_text(commands.len())
                + " changes as one atomic group."@,
        },
    )
}

/// The views of risks.
pub open spec fn risk_views(risks: Seq<ProposalRisk>) -> Seq<RiskView> {
    risks.map_values(|risk: ProposalRisk| risk@)
}

fn is_sensitive_effect(effect: &TransactionalItemEffect) -> (result: bool)
    ensures
        result == sensitive_effect(*effect),
{
    effect.after.is_sensitive || match &effect.before {
        Some(before) => before.is_sensitive,
        None => false,
    }
}

fn operation_risk_of(
    command: &ProposalCommand,
    effect: Option<&TransactionalItemEffect>,
) -> (result: ProposalRisk)
    ensures
        result@ == operation_risk(
            *command,
            match effect {
                Some(found) => Some(*found),
                None => None,
            },
        ),
{
    let sensitive: bool = match effect {
        Some(found) => is_sensitive_effect(found),
        None => false,
    };
    let (code, level, approval, summary) = match command {
        ProposalCommand::CreateItem { .. } => (
            ProposalRiskCode::CreatesItem,
            ProposalRiskLevel::Low,
            false,
            "Creates a reversible local item.",
        ),
        ProposalCommand::ReplaceItem { .. } => (
            ProposalRiskCode::ReplacesItem,
            ProposalRiskLevel::Medium,
            true,
            "Replaces the current local item fields.",
        ),
        ProposalCommand::TrashItem { .. } => (
            ProposalRiskCode::TrashesItem,
            ProposalRiskLevel::High,
            true,
            "Moves a local item to Trash.",
        ),
        ProposalCommand::RestoreItem { .. } => (
            ProposalRiskCode::RestoresItem,
            ProposalRiskLevel::Medium,
            true,
            "Restores a previously trashed local item.",
        ),
    };
    ProposalRisk {
        code: if sensitive {
            ProposalRiskCode::SensitiveContent
        } else {
            code
        },
        level: if sensitive {
            level.higher(ProposalRiskLevel::Medium)
        } else {
            level
        },
        command_id: Some(command.command_id()),
        item_id: Some(command.target_item_id()),
        requires_explicit_approval: approval || sensitive,
        summary: if sensitive {
            "Changes an item marked sensitive. Content remains inside the owner boundary.".to_owned()
        } else {
            summary.to_owned()
        },
    }
}

/// Appends a risk of a command, if the condition holds.
fn push_risk(
    risks: &mut Vec<ProposalRisk>,
    condition: bool,
    command: &ProposalCommand,
    code: ProposalRiskCode,
    level: ProposalRiskLevel,
    summary: &str,
)
    ensures
        risk_views(final(risks)@) == risk_views(old(risks)@) + risk_if(
            condition,
            command_risk(*command, code, level, summary@),
        ),
{
    if condition {
        risks.push(
            ProposalRisk {
                code,
                level,
                command_id: Some(command.command_id()),
                item_id: Some(command.target_item_id()),
                requires_explicit_approval: true,
                summary: summary.to_owned(),
            },
        );
    }
    assert(risk_views(risks@) =~= risk_views(old(risks)@) + risk_if(
        condition,
        command_risk(*command, code, level, summary@),
    ));
}

fn push_material_risks(
    risks: &mut Vec<ProposalRisk>,
    command: &ProposalCommand,
    before: &Item,
    after: &Item,
)
    ensures
        risk_views(final(risks)@) == risk_views(old(risks)@) + material_risks(
            *command,
            *before,
            *after,
        ),
{
    let deadline: Option<DeadlineRiskChange> = deadline_risk_change(before, after);
    let relaxed: bool = deadline == Some(DeadlineRiskChange::Relaxed);
    push_risk(
        risks,
        deadline.is_some(),
        command,
        if relaxed {
            ProposalRiskCode::RelaxesDeadline
        } else {
            ProposalRiskCode::ChangesDeadline
        },
        ProposalRiskLevel::Medium,
        if relaxed {
            "Relaxes or removes the current deadline."
        } else {
            "Changes the current deadline."
        },
    );
    push_risk(
        risks,
        before.parent_id != after.parent_id || before.sibling_order != after.sibling_order,
        command,
        ProposalRiskCode::ChangesHierarchy,
        ProposalRiskLevel::High,
        "Moves the item within the goal hierarchy.",
    );
    push_risk(
        risks,
        !same_optional_json(&before.recurrence, &after.recurrence),
        command,
        ProposalRiskCode::ChangesRecurrence,
        ProposalRiskLevel::High,
        "Changes the recurrence definition.",
    );
    push_risk(
        risks,
        before.status != after.status,
        command,
        ProposalRiskCode::ChangesExecutionState,
        ProposalRiskLevel::Medium,
        "Changes the item's execution state.",
    );
    push_risk(
        risks,
        before.is_sensitive != after.is_sensitive,
        command,
        ProposalRiskCode::ChangesSensitivity,
        ProposalRiskLevel::High,
        "Changes the item's sensitivity boundary.",
    );
    assert(risk_views(risks@) =~= risk_views(old(risks)@) + material_risks(
        *command,
        *before,
        *after,
    ));
}

fn push_effect_risks(
    risks: &mut Vec<ProposalRisk>,
    command: &ProposalCommand,
    effect: &TransactionalItemEffect,
)
    ensures
        risk_views(final(risks)@) == risk_views(old(risks)@) + effect_risks(*command, *effect),
{
    let child: bool = match command {
        ProposalCommand::CreateItem { item, .. } => item.parent_id.is_some(),
        _ => false,
    };
    push_risk(
        risks,
        child,
        command,
        ProposalRiskCode::ChangesHierarchy,
        ProposalRiskLevel::High,
        "Adds an item beneath an existing or proposed hierarchy parent.",
    );
    let rewired: bool = match &effect.before {
        None => effect.after.dependencies.len() > 0,
        Some(before) => !same_dependencies(&before.dependencies, &effect.after.dependencies),
    };
    push_risk(
        risks,
        rewired,
        command,
        ProposalRiskCode::ChangesDependencies,
        ProposalRiskLevel::High,
        "Changes which items constrain this item's schedule.",
    );
    match &effect.before {
        Some(before) => {
            push_material_risks(risks, command, before, &effect.after);
        },
        None => {},
    }
    assert(risk_views(risks@) =~= risk_views(old(risks)@) + effect_risks(*command, *effect));
}

/// The risks of a change set, given what its commands did.
pub fn proposal_risks(
    commands: &Vec<ProposalCommand>,
    effects: &Vec<TransactionalItemEffect>,
) -> (result: Vec<ProposalRisk>)
    ensures
        risk_views(result@) == change_set_risks(commands@, effects@),
{
    let mut risks: Vec<ProposalRisk> = Vec::new();
    let ghost by_operation = Seq::new(
        commands@.len(),
        |k: int| operation_risk(commands@[k], effect_at(effects@, k)),
    );
    let mut i: usize = 0;
    while i < commands.len()
        invariant
            i <= commands.len(),
            by_operation == Seq::new(
                commands@.len(),
                |k: int| operation_risk(commands@[k], effect_at(effects@, k)),
            ),
            risk_views(risks@) == by_operation.take(i as int),
        decreases commands.len() - i,
    {
        let effect: Option<&TransactionalItemEffect> = if i < effects.len() {
            Some(&effects[i])
        } else {
            None
        };
        let risk: ProposalRisk = operation_risk_of(&commands[i], effect);
        assert(risk@ == by_operation[i as int]);
        let ghost earlier = risks@;
        risks.push(risk);
        proof {
            assert(risk_views(risks@) =~= risk_views(earlier).push(risk@));
            assert(by_operation.take(i + 1) =~= by_operation.take(i as int).push(
                by_operation[i as int],
            ));
        }
        i = i + 1;
    }
    assert(by_operation.take(i as int) =~= by_operation);
    let shared: usize = if commands.len() <= effects.len() {
        commands.len()
    } else {
        effects.len()
    };
    let mut i: usize = 0;
    assert(risk_views(risks@) =~= by_operation + effects_risks(commands@, effects@, 0));
    while i < shared
        invariant
            i <= shared <= commands.len(),
            shared <= effects.len(),
            risk_views(risks@) == by_operation + effects_risks(commands@, effects@, i as nat),
        decreases shared - i,
    {
        push_effect_risks(&mut risks, &commands[i], &effects[i]);
        i = i + 1;
        assert(risk_views(risks@) =~= by_operation + effects_risks(commands@, effects@, i as nat));
    }
    let ghost before_bulk = risk_views(risks@);
    if commands.len() > 1 {
        let count: String = decimal(commands.len() as u64);
        let opening: String = joined("Applies ", count.as_str());
        risks.push(
            ProposalRisk {
                code: ProposalRiskCode::BulkChange,
                level: ProposalRiskLevel::Medium,
                command_id: None,
                item_id: None,
                requires_explicit_approval: true,
                summary: joined(opening.as_str(), " changes as one atomic group."),
            },
        );
    }
    assert(risk_views(risks@) =~= change_set_risks(commands@, effects@));
    risks
}

/// The highest level of risks, and the lowest one where there are none.
pub fn maximum_risk(risks: &Vec<ProposalRisk>) -> (result: ProposalRiskLevel)
    ensures
        risks@.len() == 0 ==> result == ProposalRiskLevel::Low,
        forall|k: int| 0 <= k < risks@.len() ==> (#[trigger] risks@[k]).level.rank() <= result.rank(),
        risks@.len() > 0 ==> exists|k: int|
            0 <= k < risks@.len() && (#[trigger] risks@[k]).level == result,
{
    let mut highest: ProposalRiskLevel = ProposalRiskLevel::Low;
    let mut i: usize = 0;
    while i < risks.len()
        invariant
            i <= risks.len(),
            i == 0 ==> highest == ProposalRiskLevel::Low,
            forall|k: int| 0 <= k < i ==> (#[trigger] risks@[k]).level.rank() <= highest.rank(),
            i > 0 ==> exists|k: int| 0 <= k < i && (#[trigger] risks@[k]).level == highest,
        decreases risks.len() - i,
    {
        let ghost was = highest;
        highest = highest.higher(risks[i].level);
        proof {
            if highest == risks@[i as int].level {
                assert(risks@[i as int].level == highest);
            } else {
                let k = choose|k: int| 0 <= k < i && (#[trigger] risks@[k]).level == was;
                assert(risks@[k].level == highest);
            }
        }
        i = i + 1;
    }
    highest
}

/// Whether some risk needs the owner's explicit approval.
pub fn requires_explicit_approval(risks: &Vec<ProposalRisk>) -> (result: bool)
    ensures
        result == exists|k: int|
            0 <= k < risks@.len() && (#[trigger] risks@[k]).requires_explicit_approval,
{
    let mut i: usize = 0;
    while i < risks.len()
        invariant
            i <= risks.len(),
            forall|k: int| 0 <= k < i ==> !(#[trigger] risks@[k]).requires_explicit_approval,
        decreases risks.len() - i,
    {
        if risks[i].requires_explicit_approval {
            assert(risks@[i as int].requires_explicit_approval);
            return true;
        }
        i = i + 1;
    }
    false
}

/// Nothing but a plain creation goes without the owner's explicit approval: in the
/// risks of any change set, each risk that does not need it is that of a command
/// that creates an item which is not sensitive.
pub proof fn only_creations_need_no_approval(
    commands: Seq<ProposalCommand>,
    effects: Seq<TransactionalItemEffect>,
    k: int,
)
    requires
        0 <= k < change_set_risks(commands, effects).len(),
        !change_set_risks(commands, effects)[k].requires_explicit_approval,
    ensures
        k < commands.len(),
        commands[k] is CreateItem,
        effect_at(effects, k) matches Some(effect) ==> !sensitive_effect(effect),
{
    let shared = if commands.len() <= effects.len() {
        commands.len()
    } else {
        effects.len()
    };
    let by_effect = effects_risks(commands, effects, shared);
    lemma_effects_need_approval(commands, effects, shared);
    let all = change_set_risks(commands, effects);
    if k >= commands.len() {
        if k < commands.len() + by_effect.len() {
            assert(all[k] == by_effect[k - commands.len()]);
        }
        assert(false);
    } else {
        assert(all[k] == operation_risk(commands[k], effect_at(effects, k)));
    }
}

/// Whether every one of the risks needs the owner's explicit approval.
spec fn all_need_approval(risks: Seq<RiskView>) -> bool {
    forall|i: int| 0 <= i < risks.len() ==> (#[trigger] risks[i]).requires_explicit_approval
}

proof fn lemma_both_need_approval(a: Seq<RiskView>, b: Seq<RiskView>)
    requires
        all_need_approval(a),
        all_need_approval(b),
    ensures
        all_need_approval(a + b),
{
    assert forall|i: int| 0 <= i < (a + b).len() implies (
    #[trigger] (a + b)[i]).requires_explicit_approval by {
        if i < a.len() {
            assert((a + b)[i] == a[i]);
        } else {
            assert((a + b)[i] == b[i - a.len()]);
        }
    }
}

proof fn lemma_material_needs_approval(command: ProposalCommand, before: Item, after: Item)
    ensures
        all_need_approval(material_risks(command, before, after)),
{
    let deadline = deadline_change(item_deadline_shape(before), item_deadline_shape(after));
    let a = risk_if(
        deadline is Some,
        if deadline == Some(DeadlineRiskChange::Relaxed) {
            command_risk(
                command,
                ProposalRiskCode::RelaxesDeadline,
                ProposalRiskLevel::Medium,
                "Relaxes or removes the current deadline."@,
            )
        } else {
            command_risk(
                command,
                ProposalRiskCode::ChangesDeadline,
                ProposalRiskLevel::Medium,
                "Changes the current deadline."@,
            )
        },
    );
    let b = risk_if(
        before.parent_id != after.parent_id || before.sibling_order != after.sibling_order,
        command_risk(
            command,
            ProposalRiskCode::ChangesHierarchy,
            ProposalRiskLevel::High,
            "Moves the item within the goal hierarchy."@,
        ),
    );
    let c = risk_if(
        !crate::json::optional_json_same(before.recurrence, after.recurrence),
        command_risk(
            command,
            ProposalRiskCode::ChangesRecurrence,
            ProposalRiskLevel::High,
            "Changes the recurrence definition."@,
        ),
    );
    let d = risk_if(
        before.status != after.status,
        command_risk(
            command,
            ProposalRiskCode::ChangesExecutionState,
            ProposalRiskLevel::Medium,
            "Changes the item's execution state."@,
        ),
    );
    let e = risk_if(
        before.is_sensitive != after.is_sensitive,
        command_risk(
            command,
            ProposalRiskCode::ChangesSensitivity,
            ProposalRiskLevel::High,
            "Changes the item's sensitivity boundary."@,
        ),
    );
    lemma_both_need_approval(a, b);
    lemma_both_need_approval(a + b, c);
    lemma_both_need_approval(a + b + c, d);
    lemma_both_need_approval(a + b + c + d, e);
}

proof fn lemma_effect_needs_approval(command: ProposalCommand, effect: TransactionalItemEffect)
    ensures
        all_need_approval(effect_risks(command, effect)),
{
    let a = risk_if(
        creates_child(command),
        command_risk(
            command,
            ProposalRiskCode::ChangesHierarchy,
            ProposalRiskLevel::High,
            "Adds an item beneath an existing or proposed hierarchy parent."@,
        ),
    );
    let b = risk_if(
        dependencies_changed(effect),
        command_risk(
            command,
            ProposalRiskCode::ChangesDependencies,
            ProposalRiskLevel::High,
            "Changes which items constrain this item's schedule."@,
        ),
    );
    let c = match effect.before {
        Some(before) => material_risks(command, before, effect.after),
        None => Seq::empty(),
    };
    match effect.before {
        Some(before) => {
            lemma_material_needs_approval(command, before, effect.after);
        },
        None => {},
    }
    lemma_both_need_approval(a, b);
    lemma_both_need_approval(a + b, c);
}

proof fn lemma_effects_need_approval(
    commands: Seq<ProposalCommand>,
    effects: Seq<TransactionalItemEffect>,
    count: nat,
)
    ensures
        all_need_approval(effects_risks(commands, effects, count)),
    decreases count,
{
    if count > 0 {
        lemma_effects_need_approval(commands, effects, (count - 1) as nat);
        lemma_effect_needs_approval(commands[count - 1], effects[count - 1]);
        lemma_both_need_approval(
            effects_risks(commands, effects, (count - 1) as nat),
            effect_risks(commands[count - 1], effects[count - 1]),
        );
    }
}

} // verus!
