//! What the rest of the library builds on: admission of operations, keys of requests, messages,
//! documents, texts, values and the calendar.
use vstd::prelude::*;

use crate::admission::{
    admission_error, closing, drainage, ids_valid, registration, settlement, AdmissionState,
    DrainState, OperationOwner, ProviderAdmissionError,
};
use crate::documents::{documents_policy, documents_routine, HabitPolicyRow};
use crate::habits::zones::{planner_result, subsecond_nanos, whole_seconds};
use crate::idempotency::{
    completion_of, completion_valid, decision_of, reservation_valid, same_answer, standing,
    CompletedRequest, IdempotencyDecision, IdempotencyError, IdempotencyRow, StoredCompletion,
    StoredReservation,
};
use crate::json::{first_member, unsupported_text, Json};
use crate::outbox::{claim_valid, failure_valid, message_valid, NewOutboxMessage};
use crate::routines::evidence::RoutineDefinition;
use crate::text::{blank, control_char, decimal_text, has_control, white_space};
use crate::time::{days_in_month, leap_year, CalendarDate, DatabaseScope, Instant, Uuid};

verus! {

/// Whether an operation is run by a runtime for a workspace and a user.
pub open spec fn runs_for(owner: OperationOwner, scope: DatabaseScope, runtime_id: Uuid) -> bool {
    owner.workspace_id == scope.workspace_id && owner.user_id == scope.user_id && owner.runtime_id
        == runtime_id
}

/// An operation is admitted exactly if its scope is open, not fenced off and owned by its
/// user, and nobody else runs it. It is written down exactly if it is not there yet.
pub proof fn operations_are_admitted_to_open_scopes(
    state: AdmissionState,
    scope: DatabaseScope,
    runtime_id: Uuid,
)
    ensures
        registration(state, scope, runtime_id) is Ok <==> {
            &&& state.closed_for is None
            &&& !state.fenced
            &&& state.current_owner
            &&& state.registered is None || runs_for(state.registered->0, scope, runtime_id)
        },
        registration(state, scope, runtime_id) is Ok ==> registration(
            state,
            scope,
            runtime_id,
        )->Ok_0 == (state.registered is None),
        match registration(state, scope, runtime_id) {
            Err(ProviderAdmissionError::Closed) => state.closed_for is Some || state.fenced,
            Err(ProviderAdmissionError::InvalidScope) => !state.current_owner,
            Err(ProviderAdmissionError::WrongOperation) => state.registered is Some && !runs_for(
                state.registered->0,
                scope,
                runtime_id,
            ),
            Err(_) => false,
            Ok(_) => true,
        },
{
}

/// An operation is settled by the one who runs it, and only once.
pub proof fn operations_are_settled_by_their_runtime(
    registered: Option<OperationOwner>,
    scope: DatabaseScope,
    runtime_id: Uuid,
)
    ensures
        settlement(registered, scope, runtime_id) == Ok::<bool, ProviderAdmissionError>(true)
            <==> registered is Some && runs_for(registered->0, scope, runtime_id),
        settlement(registered, scope, runtime_id) == Ok::<bool, ProviderAdmissionError>(false)
            <==> registered is None,
        settlement(registered, scope, runtime_id) is Err ==> settlement(
            registered,
            scope,
            runtime_id,
        ) == Err::<bool, ProviderAdmissionError>(ProviderAdmissionError::WrongOperation),
{
}

/// A scope is closed for one deletion, and drained exactly if it is closed for that deletion
/// and nothing runs in it any more.
pub proof fn scopes_are_closed_for_one_deletion(
    valid_deletion: bool,
    closed_for: Option<Uuid>,
    deletion_id: Uuid,
    state: Option<DrainState>,
)
    ensures
        closing(valid_deletion, closed_for, deletion_id) == Ok::<bool, ProviderAdmissionError>(true)
            <==> valid_deletion && closed_for is None,
        closing(valid_deletion, closed_for, deletion_id) == Ok::<bool, ProviderAdmissionError>(
            false,
        ) <==> valid_deletion && closed_for == Some(deletion_id),
        closing(valid_deletion, closed_for, deletion_id) is Err ==> closing(
            valid_deletion,
            closed_for,
            deletion_id,
        )->Err_0 == ProviderAdmissionError::ConflictingDeletion,
        drainage(state, deletion_id) == Ok::<bool, ProviderAdmissionError>(true) <==> state is Some
            && state->0.closed_for == Some(deletion_id) && state->0.valid_deletion
            && state->0.no_operations,
        drainage(state, deletion_id) is Err <==> state is Some && (!state->0.valid_deletion || (
        state->0.closed_for is Some && state->0.closed_for->0 != deletion_id)),
        drainage(state, deletion_id) is Err ==> drainage(state, deletion_id)->Err_0
            == ProviderAdmissionError::ConflictingDeletion,
{
}

/// Identifiers are real exactly if none of them is zero.
pub proof fn real_identifiers_are_not_zero(scope: DatabaseScope, ids: Seq<Uuid>)
    ensures
        ids_valid(scope, ids) <==> scope.workspace_id != 0 && scope.user_id != 0 && !ids.contains(
            0,
        ),
{
    if ids.contains(0) {
        let k = choose|k: int| 0 <= k < ids.len() && ids[k] == 0;
        assert(!(ids[k] != 0));
    } else {
        assert forall|k: int| 0 <= k < ids.len() implies #[trigger] ids[k] != 0 by {
            assert(ids.contains(ids[k]));
        }
    }
}

/// The codes of the database stand for the refusals that they were raised for.
pub proof fn codes_stand_for_refusals(code: Option<Seq<char>>)
    ensures
        admission_error(code) == ProviderAdmissionError::Closed <==> code == Some("DWADM"@) || code
            == Some("DWDEL"@),
        admission_error(code) == ProviderAdmissionError::InvalidScope <==> code == Some("DWSCP"@),
        admission_error(code) == ProviderAdmissionError::WrongOperation <==> code == Some("DWOPR"@)
            || code == Some("23505"@),
        admission_error(code) == ProviderAdmissionError::ConflictingDeletion <==> code == Some(
            "DWCON"@,
        ),
{
    reveal_strlit("DWADM");
    reveal_strlit("DWDEL");
    reveal_strlit("DWSCP");
    reveal_strlit("DWOPR");
    reveal_strlit("23505");
    reveal_strlit("DWCON");
    assert("DWADM"@[2] == 'A' && "DWDEL"@[2] == 'D' && "DWSCP"@[2] == 'S' && "DWOPR"@[2] == 'O'
        && "23505"@[2] == '5' && "DWCON"@[2] == 'C');
}

/// A key is reserved exactly if its name space says something within a hundred bytes, the key
/// has eight to five hundred bytes, the fingerprint at least sixteen, and it does not expire
/// at once.
pub proof fn keys_are_reserved_for_a_time(
    namespace: Seq<char>,
    raw_key: Seq<char>,
    fingerprint: Seq<u8>,
    expires_at: Instant,
    now: Instant,
)
    ensures
        reservation_valid(namespace, raw_key, fingerprint, expires_at, now) <==> {
            &&& exists|i: int| 0 <= i < namespace.len() && !white_space(#[trigger] namespace[i])
            &&& vstd::utf8::encode_utf8(namespace).len() <= 100
            &&& 8 <= vstd::utf8::encode_utf8(raw_key).len()
            &&& vstd::utf8::encode_utf8(raw_key).len() <= 500
            &&& 16 <= fingerprint.len()
            &&& now < expires_at
        },
{
}

/// A completion stands exactly if its name space, its key and its resource, if it has one, say
/// something, and its fingerprint has at least sixteen bytes.
pub proof fn completions_name_their_request(
    namespace: Seq<char>,
    raw_key: Seq<char>,
    fingerprint: Seq<u8>,
    resource_type: Option<Seq<char>>,
)
    ensures
        completion_valid(namespace, raw_key, fingerprint, resource_type) <==> !blank(namespace)
            && raw_key.len() >= 1 && fingerprint.len() >= 16 && (resource_type is None || !blank(
            resource_type->0,
        )),
{
}

/// A request is carried out exactly if its key is new; one that was answered is answered alike
/// again; one that is under way is told so; and another request with the key is refused.
pub proof fn requests_are_carried_out_once(existing: Option<StoredReservation>, fingerprint: Seq<u8>)
    ensures
        (decision_of(existing, fingerprint) == IdempotencyDecision::Acquired) == (existing is None),
        decision_of(existing, fingerprint) == IdempotencyDecision::Conflict <==> existing is Some
            && existing->0.request_fingerprint@ != fingerprint,
        decision_of(existing, fingerprint) is Replay <==> existing is Some
            && existing->0.request_fingerprint@ == fingerprint && existing->0.state@
            == "completed"@,
        decision_of(existing, fingerprint) is Replay ==> decision_of(existing, fingerprint) == (
        IdempotencyDecision::Replay {
            resource_id: existing->0.resource_id,
            response: existing->0.response,
        }),
{
}

/// An answer is written exactly if its request is there and not answered yet; the same answer
/// may be given again; and any other one is refused.
pub proof fn requests_are_answered_with_one_answer(
    stored: Option<StoredCompletion>,
    fingerprint: Seq<u8>,
    given: CompletedRequest,
)
    ensures
        completion_of(stored, fingerprint, given) == Ok::<bool, IdempotencyError>(true)
            <==> stored is Some && stored->0.request_fingerprint@ == fingerprint && stored->0.state@
            != "completed"@,
        completion_of(stored, fingerprint, given) == Ok::<bool, IdempotencyError>(false)
            <==> stored is Some && stored->0.request_fingerprint@ == fingerprint && stored->0.state@
            == "completed"@ && same_answer(stored->0, given),
        completion_of(stored, fingerprint, given) == Err::<bool, IdempotencyError>(
            IdempotencyError::NotFound,
        ) <==> stored is None,
        completion_of(stored, fingerprint, given) is Err && stored is Some ==> completion_of(
            stored,
            fingerprint,
            given,
        )->Err_0 == IdempotencyError::Conflict,
        stored is Some ==> (same_answer(stored->0, given) <==> {
            &&& stored->0.resource_id == given.resource_id
            &&& stored->0.resource_type is Some == given.resource_type is Some
            &&& given.resource_type is Some ==> stored->0.resource_type->0@
                == given.resource_type->0@
            &&& crate::json::optional_json_same(stored->0.response, given.response)
        }),
{
}

/// A key stands until it expires, and not at that instant any more.
pub proof fn keys_stand_until_they_expire(row: IdempotencyRow, now: Instant)
    ensures
        standing(Some(row), now) is Some <==> now < row.expires_at,
        standing(Some(row), now) is Some ==> standing(Some(row), now)->0 == row,
        standing(None, now) is None,
{
}

/// A message can be delivered exactly if its kind, its event and its key have their length,
/// and its payload and its headers are objects.
pub proof fn sound_messages_are_delivered(message: NewOutboxMessage)
    ensures
        message_valid(message) <==> {
            &&& !blank(message.aggregate_type@) && message.aggregate_type@.len() <= 100
            &&& !blank(message.event_type@) && message.event_type@.len() <= 150
            &&& message.deduplication_key is Some ==> 1 <= message.deduplication_key->0@.len()
                && message.deduplication_key->0@.len() <= 500
            &&& message.payload is Object
            &&& message.headers is Object
        },
{
}

/// A worker claims one to a thousand messages for up to an hour, under a name of up to two
/// hundred characters, and puts off a failed delivery to a later instant with a short code.
pub proof fn workers_claim_within_bounds(
    worker_id: Seq<char>,
    limit: u32,
    lease: i128,
    error_code: Seq<char>,
    retry_at: Instant,
    now: Instant,
)
    ensures
        claim_valid(worker_id, limit, lease) <==> !blank(worker_id) && worker_id.len() <= 200 && 1
            <= limit && limit <= 1_000 && 1 <= lease && lease <= 60 * 60 * 1_000_000_000,
        failure_valid(worker_id, error_code, retry_at, now) <==> !blank(worker_id) && !blank(
            error_code,
        ) && error_code.len() <= 100 && now < retry_at,
{
}

/// Routines with the same document are the same in everything that makes a routine the one
/// that it is: its root and where that stands, its recurrence and time zone, and its members
/// in their order.
pub proof fn documents_tell_routines_apart(
    a: RoutineDefinition,
    b: RoutineDefinition,
    document: Json,
    k: int,
)
    requires
        documents_routine(a, document),
        documents_routine(b, document),
    ensures
        crate::outside::text_of_uuid(a.root_id) == crate::outside::text_of_uuid(b.root_id),
        a.root_parent_id is Some == b.root_parent_id is Some,
        a.root_parent_id is Some ==> crate::outside::text_of_uuid(a.root_parent_id->0)
            == crate::outside::text_of_uuid(b.root_parent_id->0),
        a.recurrence is Some && b.recurrence is Some ==> crate::json::json_same(
            a.recurrence->0,
            b.recurrence->0,
        ),
        a.timezone_name@ == b.timezone_name@,
        a.members@.len() == b.members@.len(),
        0 <= k < a.members@.len() ==> {
            let x = a.members@[k];
            let y = b.members@[k];
            &&& crate::outside::text_of_uuid(x.item_id) == crate::outside::text_of_uuid(y.item_id)
            &&& x.parent_id is Some == y.parent_id is Some
            &&& x.parent_id is Some ==> crate::outside::text_of_uuid(x.parent_id->0)
                == crate::outside::text_of_uuid(y.parent_id->0)
            &&& x.kind == y.kind
            &&& x.recurrence is Some && y.recurrence is Some ==> crate::json::json_same(
                x.recurrence->0,
                y.recurrence->0,
            )
            &&& x.timezone_name@ == y.timezone_name@
            &&& x.routine_ordered == y.routine_ordered
            &&& x.sibling_order == y.sibling_order
        },
{
    if a.recurrence is Some && b.recurrence is Some {
        lemma_both_hold(
            a.recurrence->0,
            b.recurrence->0,
            crate::documents::at(document, 2),
        );
    }
    if 0 <= k < a.members@.len() {
        let members = crate::documents::at(document, 1)->Array_0@;
        let x = a.members@[k];
        let y = b.members@[k];
        assert(crate::documents::documents_member(x, members[k]));
        assert(crate::documents::documents_member(y, members[k]));
        crate::items::names::kind_name_text_is_injective(x.kind, y.kind);
        if x.recurrence is Some && y.recurrence is Some {
            lemma_both_hold(
                x.recurrence->0,
                y.recurrence->0,
                crate::documents::at(members[k], 3),
            );
        }
    }
}

proof fn lemma_both_hold(a: Json, b: Json, document: Json)
    requires
        crate::json::json_same(a, document),
        crate::json::json_same(b, document),
    ensures
        crate::json::json_same(a, b),
{
    crate::json::json_same_symmetric(b, document);
    crate::json::json_same_transitive(a, document, b);
}

/// Habits with the same policy document follow the same policy: the same recurrence,
/// constraints and time zone, the same duration, and the same way to split it.
pub proof fn documents_tell_policies_apart(a: HabitPolicyRow, b: HabitPolicyRow, document: Json)
    requires
        documents_policy(a, document),
        documents_policy(b, document),
    ensures
        crate::outside::text_of_uuid(a.habit_id) == crate::outside::text_of_uuid(b.habit_id),
        a.timezone_name@ == b.timezone_name@,
        a.recurrence is Some && b.recurrence is Some ==> crate::json::json_same(
            a.recurrence->0,
            b.recurrence->0,
        ),
        crate::json::json_same(a.constraints, b.constraints),
        a.duration_kind@ == b.duration_kind@,
        a.duration_seconds == b.duration_seconds,
        a.duration_min_seconds == b.duration_min_seconds,
        a.duration_max_seconds == b.duration_max_seconds,
        a.duration_source is Some == b.duration_source is Some,
        a.duration_source is Some ==> a.duration_source->0@ == b.duration_source->0@,
        a.split_allowed == b.split_allowed,
        a.minimum_chunk_seconds == b.minimum_chunk_seconds,
        a.maximum_chunk_seconds == b.maximum_chunk_seconds,
{
    lemma_both_hold(a.constraints, b.constraints, crate::documents::at(document, 0));
    if a.recurrence is Some && b.recurrence is Some {
        lemma_both_hold(
            a.recurrence->0,
            b.recurrence->0,
            crate::documents::at(document, 3),
        );
    }
}

/// A text holds a control code exactly if a part of it does, and is blank exactly if every
/// part of it is.
pub proof fn texts_are_judged_by_their_parts(a: Seq<char>, b: Seq<char>)
    ensures
        has_control(a + b) == (has_control(a) || has_control(b)),
        blank(a + b) == (blank(a) && blank(b)),
        blank(Seq::empty()),
        !has_control(Seq::empty()),
{
    let both = a + b;
    assert forall|i: int| 0 <= i < a.len() implies #[trigger] a[i] == both[i] by {}
    assert forall|i: int| 0 <= i < b.len() implies #[trigger] b[i] == both[a.len() + i] by {}
    if has_control(both) {
        let i = choose|i: int| 0 <= i < both.len() && control_char(#[trigger] both[i]);
        if i < a.len() {
            assert(control_char(a[i]));
        } else {
            assert(control_char(b[i - a.len()]));
        }
    }
    if has_control(a) {
        let i = choose|i: int| 0 <= i < a.len() && control_char(#[trigger] a[i]);
        assert(control_char(both[i]));
    }
    if has_control(b) {
        let i = choose|i: int| 0 <= i < b.len() && control_char(#[trigger] b[i]);
        assert(control_char(both[a.len() + i]));
    }
    if blank(a) && blank(b) {
        assert forall|i: int| 0 <= i < both.len() implies white_space(#[trigger] both[i]) by {
            if i < a.len() {
                assert(white_space(a[i]));
            } else {
                assert(white_space(b[i - a.len()]));
            }
        }
    }
}

/// The control codes lie below the space and from the delete code on, and the printable
/// characters of ASCII are none; of the white space of ASCII only the space is no control
/// code.
pub proof fn printable_characters_are_no_control_codes(c: char)
    ensures
        control_char(c) <==> (c as u32) < 32 || (127 <= c as u32 && c as u32 <= 159),
        (c as u32) < 128 && white_space(c) ==> c == ' ' || (9 <= c as u32 && c as u32 <= 13),
        (9 <= c as u32 && c as u32 <= 13) || c == ' ' ==> white_space(c),
        33 <= c as u32 && c as u32 <= 126 ==> !white_space(c) && !control_char(c),
{
}

/// A number is read back from its digits, so no two numbers are written alike.
pub proof fn numbers_are_read_back_from_their_digits(value: nat)
    ensures
        crate::routines::cursors::digits_value(decimal_text(value)) == value,
        forall|i: int|
            0 <= i < decimal_text(value).len() ==> '0' <= #[trigger] decimal_text(value)[i] && decimal_text(
                value,
            )[i] <= '9',
        decimal_text(value).len() > 0,
    decreases value,
{
    reveal_with_fuel(crate::routines::cursors::digits_value, 2);
    if value < 10 {
        let digits = decimal_text(value);
        assert(digits.drop_last() =~= Seq::empty());
        assert(digits.last() == crate::text::digit_char(value));
    } else {
        numbers_are_read_back_from_their_digits(value / 10);
        let digits = decimal_text(value);
        assert(digits.drop_last() =~= decimal_text(value / 10));
        assert(digits.last() == crate::text::digit_char(value % 10));
        assert(value == (value / 10) * 10 + value % 10);
    }
}

/// A value is refused for its texts exactly if a text or a key within it holds a control code,
/// or it nests deeper than sixty-four levels.
pub proof fn values_are_refused_for_what_they_hold(value: Json, depth: nat)
    ensures
        depth > 64 ==> unsupported_text(value, depth),
        depth <= 64 ==> match value {
            Json::Text(text) => unsupported_text(value, depth) == has_control(text@),
            Json::Array(values) => unsupported_text(value, depth) <==> exists|i: int|
                0 <= i < values@.len() && unsupported_text(#[trigger] values@[i], depth + 1),
            Json::Object(members) => unsupported_text(value, depth) <==> exists|i: int|
                0 <= i < members@.len() && (has_control((#[trigger] members@[i]).0@)
                    || unsupported_text(members@[i].1, depth + 1)),
            _ => !unsupported_text(value, depth),
        },
{
}

/// What is refused at one level is refused at every deeper one.
pub proof fn deeper_values_are_refused_sooner(value: Json, depth: nat, deeper: nat)
    requires
        unsupported_text(value, depth),
        depth <= deeper,
    ensures
        unsupported_text(value, deeper),
    decreases value,
{
    if deeper <= 64 {
        match value {
            Json::Array(values) => {
                let i = choose|i: int|
                    0 <= i < values@.len() && unsupported_text(#[trigger] values@[i], depth + 1);
                deeper_values_are_refused_sooner(values@[i], depth + 1, deeper + 1);
            },
            Json::Object(members) => {
                let i = choose|i: int|
                    0 <= i < members@.len() && (has_control((#[trigger] members@[i]).0@)
                        || unsupported_text(members@[i].1, depth + 1));
                if !has_control(members@[i].0@) {
                    deeper_values_are_refused_sooner(members@[i].1, depth + 1, deeper + 1);
                }
                assert(has_control(members@[i].0@) || unsupported_text(
                    members@[i].1,
                    deeper + 1,
                ));
            },
            _ => {},
        }
    }
}

/// A member of an object is found under its key, the first one where there are several, and
/// nothing is found under a key that the object does not have.
pub proof fn members_are_found_under_their_key(
    members: Seq<(String, Json)>,
    key: Seq<char>,
    i: int,
)
    ensures
        0 <= i < members.len() && members[i].0@ == key && (forall|j: int|
            0 <= j < i ==> (#[trigger] members[j]).0@ != key) ==> first_member(members, key) == Some(
            members[i].1,
        ),
        (forall|j: int| 0 <= j < members.len() ==> (#[trigger] members[j]).0@ != key)
            ==> first_member(members, key) is None,
    decreases members.len(),
{
    if members.len() > 0 {
        let rest = members.skip(1);
        members_are_found_under_their_key(rest, key, i - 1);
        assert(forall|j: int| 0 <= j < rest.len() ==> #[trigger] rest[j] == members[j + 1]);
        if 0 < i < members.len() && (forall|j: int|
            0 <= j < i ==> (#[trigger] members[j]).0@ != key) {
            assert(members[0].0@ != key);
            assert forall|j: int| 0 <= j < i - 1 implies (#[trigger] rest[j]).0@ != key by {
                assert(rest[j] == members[j + 1]);
            }
        }
        if forall|j: int| 0 <= j < members.len() ==> (#[trigger] members[j]).0@ != key {
            assert(members[0].0@ != key);
            assert forall|j: int| 0 <= j < rest.len() implies (#[trigger] rest[j]).0@ != key by {
                assert(rest[j] == members[j + 1]);
            }
        }
    }
}

/// A year has three hundred and sixty-five days, and one more if it is a leap year, which
/// those are that four divides, but for the hundreds that four hundred does not.
pub proof fn years_have_their_days(year: int)
    ensures
        days_in_month(year, 1) + days_in_month(year, 2) + days_in_month(year, 3) + days_in_month(
            year,
            4,
        ) + days_in_month(year, 5) + days_in_month(year, 6) + days_in_month(year, 7)
            + days_in_month(year, 8) + days_in_month(year, 9) + days_in_month(year, 10)
            + days_in_month(year, 11) + days_in_month(year, 12) == if leap_year(year) {
            366int
        } else {
            365
        },
        leap_year(year) == leap_year(year + 400),
        year % 400 == 0 ==> leap_year(year),
        year % 100 == 0 && year % 400 != 0 ==> !leap_year(year),
        year % 4 == 0 && year % 100 != 0 ==> leap_year(year),
        year % 4 != 0 ==> !leap_year(year),
{
}

/// A date is on the calendar exactly if its month and its day are, and each month has the
/// days that it has.
pub proof fn dates_are_on_the_calendar(date: CalendarDate)
    ensures
        date.on_calendar() ==> 1 <= date.month <= 12 && 1 <= date.day <= 31,
        1 <= date.month <= 12 && 1 <= date.day <= 28 ==> date.on_calendar(),
        date.month == 2 && date.day == 29 ==> date.on_calendar() == leap_year(date.year as int),
        date.day == 30 && 1 <= date.month <= 12 ==> date.on_calendar() == (date.month != 2),
        date.day == 31 && 1 <= date.month <= 12 ==> date.on_calendar() == (date.month == 1
            || date.month == 3 || date.month == 5 || date.month == 7 || date.month == 8
            || date.month == 10 || date.month == 12),
{
}

/// Dates are ordered by their years, then by their months, then by their days.
pub proof fn dates_follow_the_calendar(a: CalendarDate, b: CalendarDate)
    requires
        a.on_calendar(),
        b.on_calendar(),
    ensures
        a.before(b) <==> a.year * 10_000 + a.month * 100 + a.day < b.year * 10_000 + b.month * 100
            + b.day,
{
}

/// An instant is its seconds and its nanoseconds within the second, and what the planner is
/// handed of it is what it is to the microsecond, between the years -9999 and 9999.
pub proof fn instants_are_handed_over_to_the_microsecond(value: Instant)
    ensures
        whole_seconds(value) * 1_000_000_000 + subsecond_nanos(value) == value,
        0 <= subsecond_nanos(value) < 1_000_000_000,
        planner_result(value) is Ok <==> -377_705_116_800_000_000_000 <= value
            <= 253_402_300_799_999_999_999,
        planner_result(value) is Ok ==> planner_result(value)->Ok_0 <= value
            < planner_result(value)->Ok_0 + 1_000 && planner_result(value)->Ok_0 as int % 1_000
            == 0,
{
}

/// The number that bytes stand for, the most significant one first.
pub open spec fn number_of(bytes: Seq<u8>) -> nat
    decreases bytes.len(),
{
    if bytes.len() == 0 {
        0
    } else {
        number_of(bytes.drop_last()) * 256 + bytes.last() as nat
    }
}

/// A number is read back from its bytes, the most significant one first.
pub proof fn numbers_are_read_back_from_their_bytes(value: nat, count: nat)
    requires
        value < vstd::arithmetic::power::pow(256, count),
    ensures
        number_of(crate::hashing::be_bytes(value, count)) == value,
    decreases count,
{
    let bytes = crate::hashing::be_bytes(value, count);
    if count == 0 {
        vstd::arithmetic::power::lemma_pow0(256);
    } else {
        let more = vstd::arithmetic::power::pow(256, (count - 1) as nat);
        reveal(vstd::arithmetic::power::pow);
        assert(vstd::arithmetic::power::pow(256, count) == 256 * more);
        assert(value / 256 < more) by (nonlinear_arith)
            requires
                value < 256 * more,
        ;
        numbers_are_read_back_from_their_bytes(value / 256, (count - 1) as nat);
        assert(bytes.drop_last() =~= crate::hashing::be_bytes(value / 256, (count - 1) as nat));
        assert(bytes.last() == (value % 256) as u8);
        assert(value == (value / 256) * 256 + value % 256);
    }
}

/// The bytes of a signed number are those of the number that it is modulo two to the power of
/// sixty-four.
pub proof fn signed_numbers_wrap_around(value: i64)
    ensures
        0 <= crate::hashing::unsigned_of(value) < 0x1_0000_0000_0000_0000,
        value >= 0 ==> crate::hashing::unsigned_of(value) == value,
        value < 0 ==> crate::hashing::unsigned_of(value) == value + 0x1_0000_0000_0000_0000,
{
}

/// A hexadecimal digit stands for a number below sixteen in either case, and what is written
/// for such a number is read back as it.
pub proof fn hexadecimal_digits_are_read_in_either_case(c: char, upper: char, value: nat)
    requires
        value < 16,
    ensures
        crate::hashing::hex_value(crate::hashing::hex_char(value)) == Some(value),
        'a' <= c <= 'f' && upper as u32 + 32 == c as u32 ==> crate::hashing::hex_value(upper)
            == crate::hashing::hex_value(c) && crate::hashing::hex_value(c) is Some,
        crate::hashing::hex_value(c) is Some ==> crate::hashing::hex_value(c)->0 < 16,
        crate::hashing::hex_value(c) is Some <==> ('0' <= c <= '9') || ('a' <= c <= 'f') || ('A'
            <= c <= 'F'),
{
}

/// A text has the form of a digest exactly if it is the name of the algorithm, a colon and
/// sixty-four hexadecimal digits.
pub proof fn digests_have_their_form(text: Seq<char>)
    ensures
        crate::hashing::is_hash_text(text) <==> {
            &&& text.len() == 71
            &&& text.take(7) == "sha256:"@
            &&& forall|i: int|
                7 <= i < 71 ==> ('0' <= #[trigger] text[i] && text[i] <= '9') || ('a' <= text[i]
                    && text[i] <= 'f') || ('A' <= text[i] && text[i] <= 'F')
        },
{
    if crate::hashing::is_hash_text(text) {
        assert forall|i: int| 7 <= i < 71 implies ('0' <= #[trigger] text[i] && text[i] <= '9') || (
        'a' <= text[i] && text[i] <= 'f') || ('A' <= text[i] && text[i] <= 'F') by {
            assert(crate::hashing::hex_value(text[i]) is Some);
            hexadecimal_digits_are_read_in_either_case(text[i], text[i], 0);
        }
    } else if text.len() == 71 && text.take(7) == "sha256:"@ {
        let i = choose|i: int|
            7 <= i < 71 && !(crate::hashing::hex_value(#[trigger] text[i]) is Some);
        hexadecimal_digits_are_read_in_either_case(text[i], text[i], 0);
    }
}

/// The key of a request may hold letters, digits, hyphens, underscores, full stops and tildes
/// of ASCII, and nothing else.
pub proof fn keys_of_requests_are_url_safe(byte: u8)
    ensures
        crate::review::errors::key_byte(byte) <==> ('0' as u8 <= byte <= '9' as u8) || ('A' as u8
            <= byte <= 'Z' as u8) || ('a' as u8 <= byte <= 'z' as u8) || byte == '-' as u8 || byte
            == '_' as u8 || byte == '.' as u8 || byte == '~' as u8,
{
}

/// The key of a request has eight to a hundred and twenty-eight bytes, all of which may stand
/// in one.
pub proof fn keys_of_requests_have_their_length(key: Seq<char>)
    ensures
        crate::review::errors::request_key(key) <==> {
            let bytes = vstd::utf8::encode_utf8(key);
            &&& 8 <= bytes.len()
            &&& bytes.len() <= 128
            &&& !exists|k: int|
                0 <= k < bytes.len() && !crate::review::errors::key_byte(#[trigger] bytes[k])
        },
{
}

/// The database tells of a row that is there already by one code, and of a broken rule by that
/// code and two others.
pub proof fn codes_tell_of_broken_rules(code: Option<Seq<char>>)
    ensures
        crate::review::errors::unique_violation(code) ==> crate::review::errors::constraint_violation(
            code,
        ),
        crate::review::errors::constraint_violation(code) <==> code is Some && (code->0 == "23503"@
            || code->0 == "23505"@ || code->0 == "23514"@),
        crate::review::errors::unique_violation(code) <==> code is Some && code->0 == "23505"@,
{
}

} // verus!
