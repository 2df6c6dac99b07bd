//! What the risks of a change set say, and that they leave nothing out.
use vstd::prelude::*;

use crate::items::commands::TransactionalItemEffect;
use crate::items::model::{DeadlineKind, DeadlineStrength, Item};
use crate::proposals::application::{ProposalCommand, ProposalRiskCode, ProposalRiskLevel};
use crate::review::risks::{
    change_set_risks, deadline_change, effect_risks, effects_risks, item_deadline_shape,
    DeadlineRiskChange, RiskView,
};
use crate::time::{CalendarDate, Uuid};

verus! {

/// How the deadline of an item changed.
spec fn change_of(before: Item, after: Item) -> Option<DeadlineRiskChange> {
    deadline_change(item_deadline_shape(before), item_deadline_shape(after))
}

/// A deadline at an instant that moves while it stays as strong is relaxed exactly if it
/// moves to a later instant, and changed in another way exactly if it moves to an earlier one.
pub proof fn instant_moved_later_relaxes(before: Item, after: Item)
    requires
        before.deadline_kind == DeadlineKind::DateTime,
        after.deadline_kind == DeadlineKind::DateTime,
        before.deadline_at is Some,
        after.deadline_at is Some,
        before.deadline_strength == after.deadline_strength,
        before.deadline_soft_weight == after.deadline_soft_weight,
    ensures
        (deadline_change(item_deadline_shape(before), item_deadline_shape(after)) == Some(
            DeadlineRiskChange::Relaxed,
        )) == (before.deadline_at->0 < after.deadline_at->0),
        (deadline_change(item_deadline_shape(before), item_deadline_shape(after)) == Some(
            DeadlineRiskChange::Changed,
        )) == (after.deadline_at->0 < before.deadline_at->0),
        (deadline_change(item_deadline_shape(before), item_deadline_shape(after)) is None) == (
        before.deadline_at->0 == after.deadline_at->0),
{
}

/// A date as one number that grows with the calendar.
pub open spec fn date_number(date: CalendarDate) -> int {
    date.year * 10_000 + date.month * 100 + date.day
}

/// A deadline on a day that moves while it stays as strong is relaxed exactly if it moves to a
/// later day, and changed in another way exactly if it moves to an earlier one.
pub proof fn day_moved_later_relaxes(before: Item, after: Item)
    requires
        before.deadline_kind == DeadlineKind::Date,
        after.deadline_kind == DeadlineKind::Date,
        before.deadline_date is Some,
        after.deadline_date is Some,
        before.deadline_date->0.on_calendar(),
        after.deadline_date->0.on_calendar(),
        before.deadline_strength == after.deadline_strength,
        before.deadline_soft_weight == after.deadline_soft_weight,
    ensures
        (deadline_change(item_deadline_shape(before), item_deadline_shape(after)) == Some(
            DeadlineRiskChange::Relaxed,
        )) == (date_number(before.deadline_date->0) < date_number(after.deadline_date->0)),
        (deadline_change(item_deadline_shape(before), item_deadline_shape(after)) == Some(
            DeadlineRiskChange::Changed,
        )) == (date_number(after.deadline_date->0) < date_number(before.deadline_date->0)),
        (deadline_change(item_deadline_shape(before), item_deadline_shape(after)) is None) == (
        before.deadline_date == after.deadline_date),
{
}

/// Taking a deadline away relaxes it, giving one where there was none changes it, and so does
/// going from a day to an instant or back at the same strength.
pub proof fn deadline_removed_is_relaxed(before: Item, after: Item)
    requires
        before.deadline_kind != after.deadline_kind,
    ensures
        after.deadline_kind == DeadlineKind::Absent ==> deadline_change(
            item_deadline_shape(before),
            item_deadline_shape(after),
        ) == Some(DeadlineRiskChange::Relaxed),
        before.deadline_kind == DeadlineKind::Absent ==> deadline_change(
            item_deadline_shape(before),
            item_deadline_shape(after),
        ) == Some(DeadlineRiskChange::Changed),
        after.deadline_kind != DeadlineKind::Absent && before.deadline_strength
            == after.deadline_strength && before.deadline_soft_weight == after.deadline_soft_weight
            ==> deadline_change(item_deadline_shape(before), item_deadline_shape(after)) == Some(
            DeadlineRiskChange::Changed,
        ),
{
}

/// A deadline that stays where it is relaxes exactly if it is no longer hard, or counts for
/// less.
pub proof fn weaker_deadline_is_relaxed(before: Item, after: Item)
    requires
        before.deadline_kind != DeadlineKind::Absent,
        after.deadline_kind == before.deadline_kind,
        after.deadline_date == before.deadline_date,
        after.deadline_at == before.deadline_at,
        before.deadline_strength is Some,
        after.deadline_strength is Some,
        before.deadline_soft_weight is Some,
        after.deadline_soft_weight is Some,
    ensures
        before.deadline_strength == Some(DeadlineStrength::Hard) && after.deadline_strength == Some(
            DeadlineStrength::Soft,
        ) ==> deadline_change(item_deadline_shape(before), item_deadline_shape(after)) == Some(
            DeadlineRiskChange::Relaxed,
        ),
        before.deadline_strength == Some(DeadlineStrength::Soft) && after.deadline_strength == Some(
            DeadlineStrength::Hard,
        ) ==> deadline_change(item_deadline_shape(before), item_deadline_shape(after)) == Some(
            DeadlineRiskChange::Changed,
        ),
        before.deadline_strength == Some(DeadlineStrength::Soft) && after.deadline_strength == Some(
            DeadlineStrength::Soft,
        ) ==> {
            let change = deadline_change(item_deadline_shape(before), item_deadline_shape(after));
            &&& (change == Some(DeadlineRiskChange::Relaxed)) == (after.deadline_soft_weight->0
                < before.deadline_soft_weight->0)
            &&& (change == Some(DeadlineRiskChange::Changed)) == (before.deadline_soft_weight->0
                < after.deadline_soft_weight->0)
        },
        before.deadline_strength == Some(DeadlineStrength::Hard) && after.deadline_strength == Some(
            DeadlineStrength::Hard,
        ) ==> deadline_change(item_deadline_shape(before), item_deadline_shape(after)) is None,
{
}

/// A deadline that is moved to a later instant and made stronger at the same time, or moved to
/// an earlier one and made weaker, is changed and not relaxed.
pub proof fn mixed_change_is_no_relaxation(before: Item, after: Item)
    requires
        before.deadline_kind == DeadlineKind::DateTime,
        after.deadline_kind == DeadlineKind::DateTime,
        before.deadline_at is Some,
        after.deadline_at is Some,
        before.deadline_strength is Some,
        after.deadline_strength is Some,
        (before.deadline_at->0 < after.deadline_at->0 && before.deadline_strength->0
            == DeadlineStrength::Soft && after.deadline_strength->0 == DeadlineStrength::Hard) || (
        after.deadline_at->0 < before.deadline_at->0 && before.deadline_strength->0
            == DeadlineStrength::Hard && after.deadline_strength->0 == DeadlineStrength::Soft),
    ensures
        deadline_change(item_deadline_shape(before), item_deadline_shape(after)) == Some(
            DeadlineRiskChange::Changed,
        ),
{
}

/// Whether an item is sensitive before or after a command.
pub open spec fn touches_sensitive(effect: Option<TransactionalItemEffect>) -> bool {
    effect is Some && (effect->0.after.is_sensitive || (effect->0.before is Some
        && effect->0.before->0.is_sensitive))
}

/// Whether there is a reason to tell of a risk: what has to be true of a command, and of the
/// item before and after it, for the risk to be told.
pub open spec fn reason_for(
    code: ProposalRiskCode,
    command: ProposalCommand,
    effect: Option<TransactionalItemEffect>,
) -> bool {
    let known = effect is Some && effect->0.before is Some;
    let before = effect->0.before->0;
    let after = effect->0.after;
    match code {
        ProposalRiskCode::CreatesItem => command is CreateItem && !touches_sensitive(effect),
        ProposalRiskCode::ReplacesItem => command is ReplaceItem && !touches_sensitive(effect),
        ProposalRiskCode::TrashesItem => command is TrashItem && !touches_sensitive(effect),
        ProposalRiskCode::RestoresItem => command is RestoreItem && !touches_sensitive(effect),
        ProposalRiskCode::SensitiveContent => touches_sensitive(effect),
        ProposalRiskCode::RelaxesDeadline => known && deadline_change(
            item_deadline_shape(before),
            item_deadline_shape(after),
        ) == Some(DeadlineRiskChange::Relaxed),
        ProposalRiskCode::ChangesDeadline => known && deadline_change(
            item_deadline_shape(before),
            item_deadline_shape(after),
        ) == Some(DeadlineRiskChange::Changed),
        ProposalRiskCode::ChangesHierarchy => {
            ||| effect is Some && command is CreateItem && command->CreateItem_item.parent_id is Some
            ||| known && (before.parent_id != after.parent_id || before.sibling_order
                != after.sibling_order)
        },
        ProposalRiskCode::ChangesDependencies => effect is Some && if effect->0.before is Some {
            before.dependencies@ != after.dependencies@
        } else {
            after.dependencies@.len() > 0
        },
        ProposalRiskCode::ChangesRecurrence => known && !crate::json::optional_json_same(
            before.recurrence,
            after.recurrence,
        ),
        ProposalRiskCode::ChangesExecutionState => known && before.status != after.status,
        ProposalRiskCode::ChangesSensitivity => known && before.is_sensitive != after.is_sensitive,
        ProposalRiskCode::BulkChange => false,
    }
}

/// How grave a risk is. One that is told for sensitive content is as grave as what is done.
pub open spec fn gravity(code: ProposalRiskCode, command: ProposalCommand) -> ProposalRiskLevel {
    match code {
        ProposalRiskCode::CreatesItem => ProposalRiskLevel::Low,
        ProposalRiskCode::SensitiveContent => if command is TrashItem {
            ProposalRiskLevel::High
        } else {
            ProposalRiskLevel::Medium
        },
        ProposalRiskCode::TrashesItem => ProposalRiskLevel::High,
        ProposalRiskCode::ChangesHierarchy => ProposalRiskLevel::High,
        ProposalRiskCode::ChangesDependencies => ProposalRiskLevel::High,
        ProposalRiskCode::ChangesRecurrence => ProposalRiskLevel::High,
        ProposalRiskCode::ChangesSensitivity => ProposalRiskLevel::High,
        _ => ProposalRiskLevel::Medium,
    }
}

/// The identifier of a command.
pub open spec fn named_by(command: ProposalCommand) -> Uuid {
    match command {
        ProposalCommand::CreateItem { command_id, .. } => command_id,
        ProposalCommand::ReplaceItem { command_id, .. } => command_id,
        ProposalCommand::TrashItem { command_id, .. } => command_id,
        ProposalCommand::RestoreItem { command_id, .. } => command_id,
    }
}

/// The item that a command is about.
pub open spec fn aims_at(command: ProposalCommand) -> Uuid {
    match command {
        ProposalCommand::CreateItem { item, .. } => item.id,
        ProposalCommand::ReplaceItem { item_id, .. } => item_id,
        ProposalCommand::TrashItem { item_id, .. } => item_id,
        ProposalCommand::RestoreItem { item_id, .. } => item_id,
    }
}

/// Whether a risk tells of this command, as grave as it is, and asks for the owner's approval
/// unless it is a plain creation.
pub open spec fn tells_of(risk: RiskView, command: ProposalCommand) -> bool {
    &&& risk.command_id == Some(named_by(command))
    &&& risk.item_id == Some(aims_at(command))
    &&& risk.level == gravity(risk.code, command)
    &&& risk.requires_explicit_approval == (risk.code != ProposalRiskCode::CreatesItem)
}

/// The effect of a command, where it is known.
pub open spec fn known_effect(effects: Seq<TransactionalItemEffect>, k: int) -> Option<
    TransactionalItemEffect,
> {
    if 0 <= k < effects.len() {
        Some(effects[k])
    } else {
        None
    }
}

/// Whether each of some risks tells of the command, for a reason.
spec fn all_reasoned(
    risks: Seq<RiskView>,
    command: ProposalCommand,
    effect: TransactionalItemEffect,
) -> bool {
    forall|i: int|
        0 <= i < risks.len() ==> reason_for((#[trigger] risks[i]).code, command, Some(effect))
            && tells_of(risks[i], command)
}

/// Whether one of some risks has this code.
spec fn told(risks: Seq<RiskView>, code: ProposalRiskCode) -> bool {
    exists|i: int| 0 <= i < risks.len() && (#[trigger] risks[i]).code == code
}

proof fn lemma_joined(
    a: Seq<RiskView>,
    b: Seq<RiskView>,
    command: ProposalCommand,
    effect: TransactionalItemEffect,
    code: ProposalRiskCode,
)
    ensures
        all_reasoned(a, command, effect) && all_reasoned(b, command, effect) ==> all_reasoned(
            a + b,
            command,
            effect,
        ),
        told(a, code) || told(b, code) ==> told(a + b, code),
{
    let both = a + b;
    if all_reasoned(a, command, effect) && all_reasoned(b, command, effect) {
        assert forall|i: int| 0 <= i < both.len() implies reason_for(
            (#[trigger] both[i]).code,
            command,
            Some(effect),
        ) && tells_of(both[i], command) by {
            if i < a.len() {
                assert(both[i] == a[i]);
            } else {
                assert(both[i] == b[i - a.len()]);
            }
        }
    }
    if told(a, code) {
        let i = choose|i: int| 0 <= i < a.len() && (#[trigger] a[i]).code == code;
        assert(both[i] == a[i]);
    } else if told(b, code) {
        let i = choose|i: int| 0 <= i < b.len() && (#[trigger] b[i]).code == code;
        assert(both[a.len() + i] == b[i]);
    }
}

proof fn lemma_one(
    condition: bool,
    risk: RiskView,
    command: ProposalCommand,
    effect: TransactionalItemEffect,
)
    requires
        condition ==> reason_for(risk.code, command, Some(effect)) && tells_of(risk, command),
    ensures
        all_reasoned(crate::review::risks::risk_if(condition, risk), command, effect),
        condition ==> told(crate::review::risks::risk_if(condition, risk), risk.code),
{
    let risks = crate::review::risks::risk_if(condition, risk);
    if condition {
        assert(risks[0] == risk);
    }
}

proof fn lemma_material_risks(
    command: ProposalCommand,
    effect: TransactionalItemEffect,
    before: Item,
    code: ProposalRiskCode,
)
    requires
        effect.before == Some(before),
    ensures
        all_reasoned(
            crate::review::risks::material_risks(command, before, effect.after),
            command,
            effect,
        ),
        effect_code(code) && code != ProposalRiskCode::ChangesDependencies && reason_for(
            code,
            command,
            Some(effect),
        ) && !(code == ProposalRiskCode::ChangesHierarchy && crate::review::risks::creates_child(
            command,
        )) ==> told(
            crate::review::risks::material_risks(command, before, effect.after),
            code,
        ),
{
    let after = effect.after;
    let change = change_of(before, after);
    let relaxed = change == Some(DeadlineRiskChange::Relaxed);
    let ra = if relaxed {
        crate::review::risks::command_risk(
            command,
            ProposalRiskCode::RelaxesDeadline,
            ProposalRiskLevel::Medium,
            "Relaxes or removes the current deadline."@,
        )
    } else {
        crate::review::risks::command_risk(
            command,
            ProposalRiskCode::ChangesDeadline,
            ProposalRiskLevel::Medium,
            "Changes the current deadline."@,
        )
    };
    let rb = crate::review::risks::command_risk(
        command,
        ProposalRiskCode::ChangesHierarchy,
        ProposalRiskLevel::High,
        "Moves the item within the goal hierarchy."@,
    );
    let rc = crate::review::risks::command_risk(
        command,
        ProposalRiskCode::ChangesRecurrence,
        ProposalRiskLevel::High,
        "Changes the recurrence definition."@,
    );
    let rd = crate::review::risks::command_risk(
        command,
        ProposalRiskCode::ChangesExecutionState,
        ProposalRiskLevel::Medium,
        "Changes the item's execution state."@,
    );
    let re = crate::review::risks::command_risk(
        command,
        ProposalRiskCode::ChangesSensitivity,
        ProposalRiskLevel::High,
        "Changes the item's sensitivity boundary."@,
    );
    let moved = before.parent_id != after.parent_id || before.sibling_order != after.sibling_order;
    let rewritten = !crate::json::optional_json_same(before.recurrence, after.recurrence);
    lemma_one(change is Some, ra, command, effect);
    lemma_one(moved, rb, command, effect);
    lemma_one(rewritten, rc, command, effect);
    lemma_one(before.status != after.status, rd, command, effect);
    lemma_one(before.is_sensitive != after.is_sensitive, re, command, effect);
    let a = crate::review::risks::risk_if(change is Some, ra);
    let b = crate::review::risks::risk_if(moved, rb);
    let c = crate::review::risks::risk_if(rewritten, rc);
    let d = crate::review::risks::risk_if(before.status != after.status, rd);
    let e = crate::review::risks::risk_if(before.is_sensitive != after.is_sensitive, re);
    lemma_joined(a, b, command, effect, code);
    lemma_joined(a + b, c, command, effect, code);
    lemma_joined(a + b + c, d, command, effect, code);
    lemma_joined(a + b + c + d, e, command, effect, code);
    assert(crate::review::risks::material_risks(command, before, after) == a + b + c + d + e);
}

proof fn lemma_effect_risks(
    command: ProposalCommand,
    effect: TransactionalItemEffect,
    code: ProposalRiskCode,
)
    ensures
        all_reasoned(effect_risks(command, effect), command, effect),
        effect_code(code) && reason_for(code, command, Some(effect)) ==> told(
            effect_risks(command, effect),
            code,
        ),
{
    let ra = crate::review::risks::command_risk(
        command,
        ProposalRiskCode::ChangesHierarchy,
        ProposalRiskLevel::High,
        "Adds an item beneath an existing or proposed hierarchy parent."@,
    );
    let rb = crate::review::risks::command_risk(
        command,
        ProposalRiskCode::ChangesDependencies,
        ProposalRiskLevel::High,
        "Changes which items constrain this item's schedule."@,
    );
    let child = crate::review::risks::creates_child(command);
    let rewired = crate::review::risks::dependencies_changed(effect);
    lemma_one(child, ra, command, effect);
    lemma_one(rewired, rb, command, effect);
    let a = crate::review::risks::risk_if(child, ra);
    let b = crate::review::risks::risk_if(rewired, rb);
    let c = match effect.before {
        Some(before) => crate::review::risks::material_risks(command, before, effect.after),
        None => Seq::empty(),
    };
    match effect.before {
        Some(before) => {
            lemma_material_risks(command, effect, before, code);
        },
        None => {},
    }
    lemma_joined(a, b, command, effect, code);
    lemma_joined(a + b, c, command, effect, code);
    assert(effect_risks(command, effect) == a + b + c);
}

proof fn lemma_effect_risk_has_reason(
    command: ProposalCommand,
    effect: TransactionalItemEffect,
    i: int,
)
    requires
        0 <= i < effect_risks(command, effect).len(),
    ensures
        reason_for(effect_risks(command, effect)[i].code, command, Some(effect)),
        tells_of(effect_risks(command, effect)[i], command),
{
    lemma_effect_risks(command, effect, effect_risks(command, effect)[i].code);
}

spec fn effect_code(code: ProposalRiskCode) -> bool {
    match code {
        ProposalRiskCode::CreatesItem => false,
        ProposalRiskCode::ReplacesItem => false,
        ProposalRiskCode::TrashesItem => false,
        ProposalRiskCode::RestoresItem => false,
        ProposalRiskCode::SensitiveContent => false,
        ProposalRiskCode::BulkChange => false,
        _ => true,
    }
}

proof fn lemma_appended<A>(a: Seq<A>, b: Seq<A>)
    ensures
        forall|i: int| 0 <= i < a.len() ==> #[trigger] (a + b)[i] == a[i],
        forall|i: int| 0 <= i < b.len() ==> (a + b)[a.len() + i] == #[trigger] b[i],
{
}

proof fn lemma_reason_has_effect_risk(
    command: ProposalCommand,
    effect: TransactionalItemEffect,
    code: ProposalRiskCode,
) -> (i: int)
    requires
        effect_code(code),
        reason_for(code, command, Some(effect)),
    ensures
        0 <= i < effect_risks(command, effect).len(),
        effect_risks(command, effect)[i].code == code,
{
    lemma_effect_risks(command, effect, code);
    let risks = effect_risks(command, effect);
    choose|i: int| 0 <= i < risks.len() && (#[trigger] risks[i]).code == code
}

proof fn lemma_effects_have_reasons(
    commands: Seq<ProposalCommand>,
    effects: Seq<TransactionalItemEffect>,
    count: nat,
    i: int,
) -> (k: int)
    requires
        count <= commands.len(),
        count <= effects.len(),
        0 <= i < effects_risks(commands, effects, count).len(),
    ensures
        0 <= k < count,
        reason_for(effects_risks(commands, effects, count)[i].code, commands[k], Some(effects[k])),
        tells_of(effects_risks(commands, effects, count)[i], commands[k]),
    decreases count,
{
    let earlier = effects_risks(commands, effects, (count - 1) as nat);
    let own = effect_risks(commands[count - 1], effects[count - 1]);
    lemma_appended(earlier, own);
    if i < earlier.len() {
        assert(effects_risks(commands, effects, count)[i] == earlier[i]);
        lemma_effects_have_reasons(commands, effects, (count - 1) as nat, i)
    } else {
        assert(effects_risks(commands, effects, count)[i] == own[i - earlier.len()]);
        lemma_effect_risk_has_reason(commands[count - 1], effects[count - 1], i - earlier.len());
        count - 1
    }
}

proof fn lemma_reasons_have_effects(
    commands: Seq<ProposalCommand>,
    effects: Seq<TransactionalItemEffect>,
    count: nat,
    k: int,
    code: ProposalRiskCode,
) -> (i: int)
    requires
        count <= commands.len(),
        count <= effects.len(),
        0 <= k < count,
        effect_code(code),
        reason_for(code, commands[k], Some(effects[k])),
    ensures
        0 <= i < effects_risks(commands, effects, count).len(),
        effects_risks(commands, effects, count)[i].code == code,
        tells_of(effects_risks(commands, effects, count)[i], commands[k]),
    decreases count,
{
    let earlier = effects_risks(commands, effects, (count - 1) as nat);
    let own = effect_risks(commands[count - 1], effects[count - 1]);
    lemma_appended(earlier, own);
    if k < count - 1 {
        let i = lemma_reasons_have_effects(commands, effects, (count - 1) as nat, k, code);
        assert(effects_risks(commands, effects, count)[i] == earlier[i]);
        i
    } else {
        let i = lemma_reason_has_effect_risk(commands[k], effects[k], code);
        lemma_effect_risk_has_reason(commands[k], effects[k], i);
        assert(effects_risks(commands, effects, count)[earlier.len() + i] == own[i]);
        earlier.len() + i
    }
}

/// Every risk that is told of is there: it tells of a command of the change set for which
/// there is a reason to tell it, or of more than one command.
pub proof fn told_risks_have_reasons(
    commands: Seq<ProposalCommand>,
    effects: Seq<TransactionalItemEffect>,
    i: int,
)
    requires
        0 <= i < change_set_risks(commands, effects).len(),
    ensures
        ({
            let risk = change_set_risks(commands, effects)[i];
            if risk.code == ProposalRiskCode::BulkChange {
                &&& commands.len() > 1
                &&& risk.level == ProposalRiskLevel::Medium
                &&& risk.requires_explicit_approval
                &&& risk.command_id is None
                &&& risk.item_id is None
            } else {
                exists|k: int|
                    0 <= k < commands.len() && reason_for(
                        risk.code,
                        #[trigger] commands[k],
                        known_effect(effects, k),
                    ) && tells_of(risk, commands[k])
            }
        }),
{
    let all = change_set_risks(commands, effects);
    let shared = if commands.len() <= effects.len() {
        commands.len()
    } else {
        effects.len()
    };
    let by_effect = effects_risks(commands, effects, shared);
    let risk = all[i];
    if i < commands.len() {
        assert(risk == crate::review::risks::operation_risk(
            commands[i],
            crate::review::risks::effect_at(effects, i),
        ));
        assert(reason_for(risk.code, commands[i], known_effect(effects, i)));
        assert(tells_of(risk, commands[i]));
    } else if i < commands.len() + by_effect.len() {
        assert(risk == by_effect[i - commands.len()]);
        let k = lemma_effects_have_reasons(commands, effects, shared, i - commands.len());
        assert(reason_for(risk.code, commands[k], known_effect(effects, k)));
    }
}

/// Nothing is passed over: wherever there is a reason to tell a risk of a command, the risks
/// of the change set tell it.
pub proof fn reasons_are_told(
    commands: Seq<ProposalCommand>,
    effects: Seq<TransactionalItemEffect>,
    k: int,
    code: ProposalRiskCode,
)
    requires
        0 <= k < commands.len(),
        reason_for(code, commands[k], known_effect(effects, k)),
    ensures
        exists|i: int|
            0 <= i < change_set_risks(commands, effects).len() && (#[trigger] change_set_risks(
                commands,
                effects,
            )[i]).code == code && tells_of(change_set_risks(commands, effects)[i], commands[k]),
{
    let all = change_set_risks(commands, effects);
    let shared = if commands.len() <= effects.len() {
        commands.len()
    } else {
        effects.len()
    };
    let by_effect = effects_risks(commands, effects, shared);
    if effect_code(code) {
        let i = lemma_reasons_have_effects(commands, effects, shared, k, code);
        assert(all[commands.len() + i] == by_effect[i]);
    } else {
        assert(all[k] == crate::review::risks::operation_risk(
            commands[k],
            crate::review::risks::effect_at(effects, k),
        ));
        assert(all[k].code == code);
    }
}

/// A change set of more than one command is told to be one, and one of a single command is
/// not.
pub proof fn bulk_is_told(commands: Seq<ProposalCommand>, effects: Seq<TransactionalItemEffect>)
    ensures
        commands.len() > 1 <==> exists|i: int|
            0 <= i < change_set_risks(commands, effects).len() && (#[trigger] change_set_risks(
                commands,
                effects,
            )[i]).code == ProposalRiskCode::BulkChange,
{
    let all = change_set_risks(commands, effects);
    if commands.len() > 1 {
        assert(all[all.len() - 1].code == ProposalRiskCode::BulkChange);
    }
    if exists|i: int|
        0 <= i < all.len() && (#[trigger] all[i]).code == ProposalRiskCode::BulkChange {
        let i = choose|i: int|
            0 <= i < all.len() && (#[trigger] all[i]).code == ProposalRiskCode::BulkChange;
        told_risks_have_reasons(commands, effects, i);
    }
}

/// A change of a deadline alone is told as what it is: a date-time deadline of an item that
/// moves to a later instant at the same strength makes the risks tell of a relaxed deadline,
/// and never of one that is changed in another way.
pub proof fn later_instant_is_told_as_relaxed(
    command: ProposalCommand,
    effect: TransactionalItemEffect,
    before: Item,
)
    requires
        effect.before == Some(before),
        before.deadline_kind == DeadlineKind::DateTime,
        effect.after.deadline_kind == DeadlineKind::DateTime,
        before.deadline_at is Some,
        effect.after.deadline_at is Some,
        before.deadline_strength == effect.after.deadline_strength,
        before.deadline_soft_weight == effect.after.deadline_soft_weight,
        before.deadline_at->0 < effect.after.deadline_at->0,
    ensures
        exists|i: int|
            0 <= i < change_set_risks(seq![command], seq![effect]).len() && (
            #[trigger] change_set_risks(seq![command], seq![effect])[i]).code
                == ProposalRiskCode::RelaxesDeadline,
        forall|i: int|
            0 <= i < change_set_risks(seq![command], seq![effect]).len() ==> (
            #[trigger] change_set_risks(seq![command], seq![effect])[i]).code
                != ProposalRiskCode::ChangesDeadline,
{
    let commands = seq![command];
    let effects = seq![effect];
    assert(commands[0] == command && effects[0] == effect);
    reasons_are_told(commands, effects, 0, ProposalRiskCode::RelaxesDeadline);
    assert forall|i: int| 0 <= i < change_set_risks(commands, effects).len() implies (
    #[trigger] change_set_risks(commands, effects)[i]).code
        != ProposalRiskCode::ChangesDeadline by {
        told_risks_have_reasons(commands, effects, i);
    }
}

} // verus!
