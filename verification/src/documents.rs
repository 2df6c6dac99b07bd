//! Documents that are hashed: the definition of a routine and the policy of a habit.
use vstd::prelude::*;

use crate::habits::zones::PublishedHabitEvidenceError;
use crate::items::model::copy_optional_json;
use crate::items::names::kind_name;
use crate::json::{Json, JsonNumber};
use crate::outside::uuid_text;
use crate::routines::evidence::{MemberDefinition, RoutineDefinition};
use crate::time::Uuid;

verus! {

/// Whether a document is this text.
pub open spec fn says(document: Json, text: Seq<char>) -> bool {
    document matches Json::Text(said) && said@ == text
}

/// Whether a document is the text of an identifier.
pub open spec fn names(document: Json, id: Uuid) -> bool {
    says(document, crate::outside::text_of_uuid(id))
}

/// Whether a document is the text of an identifier, or null where there is none.
pub open spec fn may_name(document: Json, id: Option<Uuid>) -> bool {
    match id {
        Some(id) => names(document, id),
        None => document is Null,
    }
}

/// Whether a document is this text, or null where there is none.
pub open spec fn may_say(document: Json, text: Option<String>) -> bool {
    match text {
        Some(text) => says(document, text@),
        None => document is Null,
    }
}

/// Whether a document is this one, or null where there is none.
pub open spec fn may_hold(document: Json, value: Option<Json>) -> bool {
    match value {
        Some(value) => crate::json::json_same(value, document),
        None => document is Null,
    }
}

/// Whether a document is this flag.
pub open spec fn flags(document: Json, flag: bool) -> bool {
    document == Json::Bool(flag)
}

/// Whether a document is this number.
pub open spec fn counts(document: Json, number: int) -> bool {
    match document {
        Json::Number(JsonNumber::Unsigned(count)) => count == number,
        Json::Number(JsonNumber::Negative(count)) => count == number && number < 0,
        _ => false,
    }
}

/// Whether a document is this number, or null where there is none.
pub open spec fn may_count(document: Json, number: Option<i32>) -> bool {
    match number {
        Some(number) => counts(document, number as int),
        None => document is Null,
    }
}

/// Whether a document is an object with these keys.
pub open spec fn has_keys(document: Json, keys: Seq<Seq<char>>) -> bool {
    document matches Json::Object(members) && members@.len() == keys.len() && forall|k: int|
        0 <= k < keys.len() ==> (#[trigger] members@[k]).0@ == keys[k]
}

/// What stands at a place of an object.
pub open spec fn at(document: Json, place: int) -> Json {
    document->Object_0@[place].1
}

/// A text as a document.
fn text_document(text: &str) -> (result: Json)
    ensures
        says(result, text@),
{
    Json::Text(text.to_owned())
}

/// An identifier as a document.
fn id_document(id: Uuid) -> (result: Json)
    ensures
        names(result, id),
{
    Json::Text(uuid_text(id))
}

fn optional_id_document(id: Option<Uuid>) -> (result: Json)
    ensures
        may_name(result, id),
{
    match id {
        Some(id) => id_document(id),
        None => Json::Null,
    }
}

fn optional_text_document(text: &Option<String>) -> (result: Json)
    ensures
        may_say(result, *text),
{
    match text {
        Some(text) => text_document(text.as_str()),
        None => Json::Null,
    }
}

fn optional_document(value: &Option<Json>) -> (result: Json)
    ensures
        may_hold(result, *value),
{
    match value {
        Some(value) => value.clone(),
        None => Json::Null,
    }
}

fn optional_number_document(number: Option<i32>) -> (result: Json)
    ensures
        may_count(result, number),
{
    match number {
        Some(number) => if number < 0 {
            Json::Number(JsonNumber::Negative(number as i64))
        } else {
            Json::Number(JsonNumber::Unsigned(number as u64))
        },
        None => Json::Null,
    }
}

/// Whether a document says what a member contributes to the definition of a routine.
pub open spec fn documents_member(member: MemberDefinition, document: Json) -> bool {
    &&& has_keys(
        document,
        seq![
            "item_id"@,
            "kind"@,
            "parent_id"@,
            "recurrence"@,
            "routine_ordered"@,
            "sibling_order"@,
            "timezone_name"@,
        ],
    )
    &&& names(at(document, 0), member.item_id)
    &&& says(at(document, 1), crate::items::names::kind_name_text(member.kind))
    &&& may_name(at(document, 2), member.parent_id)
    &&& may_hold(at(document, 3), member.recurrence)
    &&& flags(at(document, 4), member.routine_ordered)
    &&& counts(at(document, 5), member.sibling_order as int)
    &&& says(at(document, 6), member.timezone_name@)
}

/// Whether a document says what makes a routine the one that it is.
pub open spec fn documents_routine(definition: RoutineDefinition, document: Json) -> bool {
    &&& has_keys(
        document,
        seq![
            "domain"@,
            "members"@,
            "recurrence"@,
            "root_id"@,
            "root_parent_id"@,
            "timezone_name"@,
        ],
    )
    &&& says(at(document, 0), "dayweave.routine-definition.v1"@)
    &&& at(document, 1) matches Json::Array(members) && members@.len() == definition.members@.len()
        && forall|k: int|
        0 <= k < members@.len() ==> documents_member(
            definition.members@[k],
            #[trigger] members@[k],
        )
    &&& may_hold(at(document, 2), definition.recurrence)
    &&& names(at(document, 3), definition.root_id)
    &&& may_name(at(document, 4), definition.root_parent_id)
    &&& says(at(document, 5), definition.timezone_name@)
}

/// What a member contributes to the definition of a routine, as a document.
fn member_document(member: &MemberDefinition) -> (result: Json)
    ensures
        documents_member(*member, result),
{
    Json::Object(
        vec![
            ("item_id".to_owned(), id_document(member.item_id)),
            ("kind".to_owned(), text_document(kind_name(member.kind))),
            ("parent_id".to_owned(), optional_id_document(member.parent_id)),
            ("recurrence".to_owned(), optional_document(&member.recurrence)),
            ("routine_ordered".to_owned(), Json::Bool(member.routine_ordered)),
            (
                "sibling_order".to_owned(),
                Json::Number(JsonNumber::Unsigned(member.sibling_order as u64)),
            ),
            ("timezone_name".to_owned(), text_document(member.timezone_name.as_str())),
        ],
    )
}

/// What makes a routine the one that it is, as a document.
pub fn routine_document(definition: &RoutineDefinition) -> (result: Json)
    ensures
        documents_routine(*definition, result),
{
    let mut members: Vec<Json> = Vec::new();
    let mut i: usize = 0;
    while i < definition.members.len()
        invariant
            i <= definition.members@.len(),
            members@.len() == i,
            forall|k: int|
                0 <= k < i ==> documents_member(definition.members@[k], #[trigger] members@[k]),
        decreases definition.members.len() - i,
    {
        members.push(member_document(&definition.members[i]));
        i = i + 1;
    }
    Json::Object(
        vec![
            ("domain".to_owned(), text_document("dayweave.routine-definition.v1")),
            ("members".to_owned(), Json::Array(members)),
            ("recurrence".to_owned(), optional_document(&definition.recurrence)),
            ("root_id".to_owned(), id_document(definition.root_id)),
            ("root_parent_id".to_owned(), optional_id_document(definition.root_parent_id)),
            ("timezone_name".to_owned(), text_document(definition.timezone_name.as_str())),
        ],
    )
}

/// The columns of an item that make up the policy of a habit.
#[derive(Debug)]
pub struct HabitPolicyRow {
    pub habit_id: Uuid,
    pub timezone_name: String,
    pub recurrence: Option<Json>,
    pub constraints: Json,
    pub duration_kind: String,
    pub duration_seconds: Option<i32>,
    pub duration_min_seconds: Option<i32>,
    pub duration_max_seconds: Option<i32>,
    pub duration_source: Option<String>,
    pub split_allowed: bool,
    pub minimum_chunk_seconds: Option<i32>,
    pub maximum_chunk_seconds: Option<i32>,
}

/// Whether a document says how long a habit takes.
pub open spec fn documents_duration(row: HabitPolicyRow, document: Json) -> bool {
    &&& has_keys(
        document,
        seq!["kind"@, "maximum_seconds"@, "minimum_seconds"@, "seconds"@, "source"@],
    )
    &&& says(at(document, 0), row.duration_kind@)
    &&& may_count(at(document, 1), row.duration_max_seconds)
    &&& may_count(at(document, 2), row.duration_min_seconds)
    &&& may_count(at(document, 3), row.duration_seconds)
    &&& may_say(at(document, 4), row.duration_source)
}

/// Whether a document says how the time for a habit may be split.
pub open spec fn documents_split(row: HabitPolicyRow, document: Json) -> bool {
    &&& has_keys(document, seq!["allowed"@, "maximum_seconds"@, "minimum_seconds"@])
    &&& flags(at(document, 0), row.split_allowed)
    &&& may_count(at(document, 1), row.maximum_chunk_seconds)
    &&& may_count(at(document, 2), row.minimum_chunk_seconds)
}

/// Whether a document says by which policy a habit recurs.
pub open spec fn documents_policy(row: HabitPolicyRow, document: Json) -> bool {
    &&& has_keys(
        document,
        seq![
            "constraints"@,
            "duration"@,
            "habit_id"@,
            "recurrence"@,
            "schema"@,
            "split"@,
            "timezone_name"@,
        ],
    )
    &&& crate::json::json_same(row.constraints, at(document, 0))
    &&& documents_duration(row, at(document, 1))
    &&& names(at(document, 2), row.habit_id)
    &&& may_hold(at(document, 3), row.recurrence)
    &&& says(at(document, 4), "dayweave-habit-policy/1"@)
    &&& documents_split(row, at(document, 5))
    &&& says(at(document, 6), row.timezone_name@)
}

fn duration_document(row: &HabitPolicyRow) -> (result: Json)
    ensures
        documents_duration(*row, result),
{
    Json::Object(
        vec![
            ("kind".to_owned(), text_document(row.duration_kind.as_str())),
            ("maximum_seconds".to_owned(), optional_number_document(row.duration_max_seconds)),
            ("minimum_seconds".to_owned(), optional_number_document(row.duration_min_seconds)),
            ("seconds".to_owned(), optional_number_document(row.duration_seconds)),
            ("source".to_owned(), optional_text_document(&row.duration_source)),
        ],
    )
}

fn split_document(row: &HabitPolicyRow) -> (result: Json)
    ensures
        documents_split(*row, result),
{
    Json::Object(
        vec![
            ("allowed".to_owned(), Json::Bool(row.split_allowed)),
            ("maximum_seconds".to_owned(), optional_number_document(row.maximum_chunk_seconds)),
            ("minimum_seconds".to_owned(), optional_number_document(row.minimum_chunk_seconds)),
        ],
    )
}

/// The policy by which a habit recurs, as a document. A habit that does not recur has none.
pub fn habit_policy_document(row: &HabitPolicyRow) -> (result: Result<
    Json,
    PublishedHabitEvidenceError,
>)
    ensures
        match result {
            Ok(document) => row.recurrence is Some && documents_policy(*row, document),
            Err(error) => row.recurrence is None && error == PublishedHabitEvidenceError::Invalid,
        },
{
    let recurrence: Json = match copy_optional_json(&row.recurrence) {
        Some(recurrence) => recurrence,
        None => {
            return Err(PublishedHabitEvidenceError::Invalid);
        },
    };
    Ok(
        Json::Object(
            vec![
                ("constraints".to_owned(), row.constraints.clone()),
                ("duration".to_owned(), duration_document(row)),
                ("habit_id".to_owned(), id_document(row.habit_id)),
                ("recurrence".to_owned(), recurrence),
                ("schema".to_owned(), text_document("dayweave-habit-policy/1")),
                ("split".to_owned(), split_document(row)),
                ("timezone_name".to_owned(), text_document(row.timezone_name.as_str())),
            ],
        ),
    )
}

} // verus!
