//! JSON documents: the values that the rules read, compare and copy.
use vstd::prelude::*;

use crate::text::{contains_control, same_text};

verus! {

/// A JSON number. Numbers that are no integers keep their text.
#[derive(Debug)]
pub enum JsonNumber {
    Unsigned(u64),
    Negative(i64),
    Decimal(String),
}

/// A JSON value. The members of an object stand in the order of their keys.
#[derive(Debug)]
pub enum Json {
    Null,
    Bool(bool),
    Number(JsonNumber),
    Text(String),
    Array(Vec<Json>),
    Object(Vec<(String, Json)>),
}

/// Whether two numbers are the same number, written the same way.
pub open spec fn number_same(a: JsonNumber, b: JsonNumber) -> bool {
    match (a, b) {
        (JsonNumber::Unsigned(x), JsonNumber::Unsigned(y)) => x == y,
        (JsonNumber::Negative(x), JsonNumber::Negative(y)) => x == y,
        (JsonNumber::Decimal(x), JsonNumber::Decimal(y)) => x@ == y@,
        _ => false,
    }
}

/// Whether two documents are the same value.
pub open spec fn json_same(a: Json, b: Json) -> bool
    decreases a,
{
    match (a, b) {
        (Json::Null, Json::Null) => true,
        (Json::Bool(x), Json::Bool(y)) => x == y,
        (Json::Number(x), Json::Number(y)) => number_same(x, y),
        (Json::Text(x), Json::Text(y)) => x@ == y@,
        (Json::Array(x), Json::Array(y)) => {
            &&& x@.len() == y@.len()
            &&& forall|i: int| 0 <= i < x@.len() ==> json_same(#[trigger] x@[i], y@[i])
        },
        (Json::Object(x), Json::Object(y)) => {
            &&& x@.len() == y@.len()
            &&& forall|i: int|
                0 <= i < x@.len() ==> (#[trigger] x@[i]).0@ == y@[i].0@ && json_same(
                    x@[i].1,
                    y@[i].1,
                )
        },
        _ => false,
    }
}

/// Whether two optional documents are both absent, or the same value.
pub open spec fn optional_json_same(a: Option<Json>, b: Option<Json>) -> bool {
    match (a, b) {
        (None, None) => true,
        (Some(x), Some(y)) => json_same(x, y),
        _ => false,
    }
}

/// Every document is the same value as itself.
pub proof fn json_same_reflexive(a: Json)
    ensures
        json_same(a, a),
    decreases a,
{
    match a {
        Json::Array(x) => {
            assert forall|i: int| 0 <= i < x@.len() implies json_same(#[trigger] x@[i], x@[i]) by {
                json_same_reflexive(x@[i]);
            }
        },
        Json::Object(x) => {
            assert forall|i: int| 0 <= i < x@.len() implies json_same(
                (#[trigger] x@[i]).1,
                x@[i].1,
            ) by {
                json_same_reflexive(x@[i].1);
            }
        },
        _ => {},
    }
}

/// Being the same value goes both ways.
pub proof fn json_same_symmetric(a: Json, b: Json)
    requires
        json_same(a, b),
    ensures
        json_same(b, a),
    decreases a,
{
    match (a, b) {
        (Json::Array(x), Json::Array(y)) => {
            assert forall|i: int| 0 <= i < y@.len() implies json_same(#[trigger] y@[i], x@[i]) by {
                assert(json_same(x@[i], y@[i]));
                json_same_symmetric(x@[i], y@[i]);
            }
        },
        (Json::Object(x), Json::Object(y)) => {
            assert forall|i: int| 0 <= i < y@.len() implies (#[trigger] y@[i]).0@ == x@[i].0@
                && json_same(y@[i].1, x@[i].1) by {
                assert(x@[i].0@ == y@[i].0@);
                json_same_symmetric(x@[i].1, y@[i].1);
            }
        },
        _ => {},
    }
}

/// Documents that are the same value as a third one are the same value.
pub proof fn json_same_transitive(a: Json, b: Json, c: Json)
    requires
        json_same(a, b),
        json_same(b, c),
    ensures
        json_same(a, c),
    decreases a,
{
    match (a, b, c) {
        (Json::Array(x), Json::Array(y), Json::Array(z)) => {
            assert forall|i: int| 0 <= i < x@.len() implies json_same(#[trigger] x@[i], z@[i]) by {
                assert(json_same(x@[i], y@[i]));
                assert(json_same(y@[i], z@[i]));
                json_same_transitive(x@[i], y@[i], z@[i]);
            }
        },
        (Json::Object(x), Json::Object(y), Json::Object(z)) => {
            assert forall|i: int| 0 <= i < x@.len() implies (#[trigger] x@[i]).0@ == z@[i].0@
                && json_same(x@[i].1, z@[i].1) by {
                assert(x@[i].0@ == y@[i].0@);
                assert(y@[i].0@ == z@[i].0@);
                json_same_transitive(x@[i].1, y@[i].1, z@[i].1);
            }
        },
        _ => {},
    }
}

impl JsonNumber {
    /// Whether `self` and `other` are the same number.
    pub fn same(&self, other: &JsonNumber) -> (result: bool)
        ensures
            result == number_same(*self, *other),
    {
        match (self, other) {
            (JsonNumber::Unsigned(x), JsonNumber::Unsigned(y)) => *x == *y,
            (JsonNumber::Negative(x), JsonNumber::Negative(y)) => *x == *y,
            (JsonNumber::Decimal(x), JsonNumber::Decimal(y)) => same_text(x.as_str(), y.as_str()),
            _ => false,
        }
    }
}

impl Clone for JsonNumber {
    fn clone(&self) -> (result: Self)
        ensures
            number_same(*self, result),
    {
        match self {
            JsonNumber::Unsigned(x) => JsonNumber::Unsigned(*x),
            JsonNumber::Negative(x) => JsonNumber::Negative(*x),
            JsonNumber::Decimal(x) => JsonNumber::Decimal(x.clone()),
        }
    }
}

impl Clone for Json {
    fn clone(&self) -> (result: Self)
        ensures
            json_same(*self, result),
        decreases self,
    {
        match self {
            Json::Null => Json::Null,
            Json::Bool(x) => Json::Bool(*x),
            Json::Number(x) => Json::Number(x.clone()),
            Json::Text(x) => Json::Text(x.clone()),
            Json::Array(x) => {
                let mut copy: Vec<Json> = Vec::new();
                let mut i: usize = 0;
                while i < x.len()
                    invariant
                        i <= x.len(),
                        self is Array,
                        self->Array_0 == *x,
                        copy@.len() == i,
                        forall|k: int| 0 <= k < i ==> json_same(#[trigger] x@[k], copy@[k]),
                    decreases x.len() - i,
                {
                    proof {
                        assert(decreases_to!(*self => self->Array_0));
                        assert(decreases_to!(*x => x@));
                        assert(decreases_to!(x@ => x@[i as int]));
                    }
                    copy.push(x[i].clone());
                    i = i + 1;
                }
                Json::Array(copy)
            },
            Json::Object(x) => {
                let mut copy: Vec<(String, Json)> = Vec::new();
                let mut i: usize = 0;
                while i < x.len()
                    invariant
                        i <= x.len(),
                        self is Object,
                        self->Object_0 == *x,
                        copy@.len() == i,
                        forall|k: int|
                            0 <= k < i ==> (#[trigger] x@[k]).0@ == copy@[k].0@ && json_same(
                                x@[k].1,
                                copy@[k].1,
                            ),
                    decreases x.len() - i,
                {
                    proof {
                        assert(decreases_to!(*self => self->Object_0));
                        assert(decreases_to!(*x => x@));
                        assert(decreases_to!(x@ => x@[i as int]));
                        assert(decreases_to!(x@[i as int] => x@[i as int].1));
                    }
                    copy.push((x[i].0.clone(), x[i].1.clone()));
                    i = i + 1;
                }
                Json::Object(copy)
            },
        }
    }
}

impl Json {
    /// Whether `self` and `other` are the same value.
    pub fn same(&self, other: &Json) -> (result: bool)
        ensures
            result == json_same(*self, *other),
        decreases self,
    {
        match (self, other) {
            (Json::Null, Json::Null) => true,
            (Json::Bool(x), Json::Bool(y)) => *x == *y,
            (Json::Number(x), Json::Number(y)) => x.same(y),
            (Json::Text(x), Json::Text(y)) => same_text(x.as_str(), y.as_str()),
            (Json::Array(x), Json::Array(y)) => {
                if x.len() != y.len() {
                    return false;
                }
                let mut i: usize = 0;
                while i < x.len()
                    invariant
                        i <= x.len(),
                        x@.len() == y@.len(),
                        self is Array,
                        self->Array_0 == *x,
                        other is Array,
                        other->Array_0 == *y,
                        forall|k: int| 0 <= k < i ==> json_same(#[trigger] x@[k], y@[k]),
                    decreases x.len() - i,
                {
                    proof {
                        assert(decreases_to!(*self => self->Array_0));
                        assert(decreases_to!(*x => x@));
                        assert(decreases_to!(x@ => x@[i as int]));
                    }
                    if !x[i].same(&y[i]) {
                        assert(!json_same(x@[i as int], y@[i as int]));
                        return false;
                    }
                    i = i + 1;
                }
                true
            },
            (Json::Object(x), Json::Object(y)) => {
                if x.len() != y.len() {
                    return false;
                }
                let mut i: usize = 0;
                while i < x.len()
                    invariant
                        i <= x.len(),
                        x@.len() == y@.len(),
                        self is Object,
                        self->Object_0 == *x,
                        other is Object,
                        other->Object_0 == *y,
                        forall|k: int|
                            0 <= k < i ==> (#[trigger] x@[k]).0@ == y@[k].0@ && json_same(
                                x@[k].1,
                                y@[k].1,
                            ),
                    decreases x.len() - i,
                {
                    proof {
                        assert(decreases_to!(*self => self->Object_0));
                        assert(decreases_to!(*x => x@));
                        assert(decreases_to!(x@ => x@[i as int]));
                        assert(decreases_to!(x@[i as int] => x@[i as int].1));
                    }
                    if !same_text(x[i].0.as_str(), y[i].0.as_str()) {
                        assert(x@[i as int].0@ != y@[i as int].0@);
                        return false;
                    }
                    if !x[i].1.same(&y[i].1) {
                        assert(!json_same(x@[i as int].1, y@[i as int].1));
                        return false;
                    }
                    i = i + 1;
                }
                true
            },
            _ => false,
        }
    }

    /// The member of an object under `key`: the first one, where a key occurs twice.
    pub open spec fn member(self, key: Seq<char>) -> Option<Json> {
        match self {
            Json::Object(members) => first_member(members@, key),
            _ => None,
        }
    }

    /// The member under `key`, for an object that has one.
    pub fn get(&self, key: &str) -> (result: Option<&Json>)
        ensures
            match result {
                Some(value) => self.member(key@) == Some(*value),
                None => self.member(key@) is None,
            },
    {
        match self {
            Json::Object(members) => {
                let mut i: usize = 0;
                assert(members@.skip(0) =~= members@);
                while i < members.len()
                    invariant
                        i <= members.len(),
                        self is Object,
                        self->Object_0 == *members,
                        first_member(members@, key@) == first_member(members@.skip(i as int), key@),
                    decreases members.len() - i,
                {
                    proof {
                        let rest = members@.skip(i as int);
                        assert(rest[0] == members@[i as int]);
                        assert(rest.skip(1) =~= members@.skip(i + 1));
                    }
                    if same_text(members[i].0.as_str(), key) {
                        return Some(&members[i].1);
                    }
                    i = i + 1;
                }
                None
            },
            _ => None,
        }
    }

    /// The truth value of a boolean.
    pub fn as_bool(&self) -> (result: Option<bool>)
        ensures
            result == match *self {
                Json::Bool(value) => Some(value),
                _ => None,
            },
    {
        match self {
            Json::Bool(value) => Some(*value),
            _ => None,
        }
    }

    /// The value of an integer that is not negative.
    pub fn as_u64(&self) -> (result: Option<u64>)
        ensures
            result == match *self {
                Json::Number(JsonNumber::Unsigned(value)) => Some(value),
                _ => None,
            },
    {
        match self {
            Json::Number(JsonNumber::Unsigned(value)) => Some(*value),
            _ => None,
        }
    }

    /// Whether the value is an object.
    pub fn is_object(&self) -> (result: bool)
        ensures
            result == (self is Object),
    {
        match self {
            Json::Object(_) => true,
            _ => false,
        }
    }
}

/// The value of the first member whose key is `key`.
pub open spec fn first_member(members: Seq<(String, Json)>, key: Seq<char>) -> Option<Json>
    decreases members.len(),
{
    if members.len() == 0 {
        None
    } else if members[0].0@ == key {
        Some(members[0].1)
    } else {
        first_member(members.skip(1), key)
    }
}

/// Nesting below this many levels is refused.
pub const MAX_JSON_DEPTH: usize = 64;

/// Whether a document that stands at nesting level `depth` holds a control
/// code in some text or key, or nests deeper than [`MAX_JSON_DEPTH`].
pub open spec fn unsupported_text(value: Json, depth: nat) -> bool
    decreases value,
{
    depth > MAX_JSON_DEPTH || match value {
        Json::Text(text) => crate::text::has_control(text@),
        Json::Array(values) => exists|i: int|
            0 <= i < values@.len() && unsupported_text(#[trigger] values@[i], depth + 1),
        Json::Object(members) => exists|i: int|
            0 <= i < members@.len() && (crate::text::has_control((#[trigger] members@[i]).0@)
                || unsupported_text(members@[i].1, depth + 1)),
        _ => false,
    }
}

/// Whether the document at nesting level `depth` holds unsupported text or
/// nests too deeply.
pub fn json_has_unsupported_text(value: &Json, depth: usize) -> (result: bool)
    ensures
        result == unsupported_text(*value, depth as nat),
    decreases value,
{
    if depth > MAX_JSON_DEPTH {
        return true;
    }
    match value {
        Json::Text(text) => contains_control(text.as_str()),
        Json::Array(values) => {
            let mut i: usize = 0;
            while i < values.len()
                invariant
                    i <= values.len(),
                    depth <= MAX_JSON_DEPTH,
                    value is Array,
                    value->Array_0 == *values,
                    forall|k: int|
                        0 <= k < i ==> !unsupported_text(#[trigger] values@[k], depth as nat + 1),
                decreases values.len() - i,
            {
                proof {
                    assert(decreases_to!(*value => value->Array_0));
                    assert(decreases_to!(*values => values@));
                    assert(decreases_to!(values@ => values@[i as int]));
                }
                if json_has_unsupported_text(&values[i], depth + 1) {
                    assert(unsupported_text(values@[i as int], depth as nat + 1));
                    return true;
                }
                i = i + 1;
            }
            false
        },
        Json::Object(members) => {
            let mut i: usize = 0;
            while i < members.len()
                invariant
                    i <= members.len(),
                    depth <= MAX_JSON_DEPTH,
                    value is Object,
                    value->Object_0 == *members,
                    forall|k: int|
                        0 <= k < i ==> !crate::text::has_control((#[trigger] members@[k]).0@)
                            && !unsupported_text(members@[k].1, depth as nat + 1),
                decreases members.len() - i,
            {
                proof {
                    assert(decreases_to!(*value => value->Object_0));
                    assert(decreases_to!(*members => members@));
                    assert(decreases_to!(members@ => members@[i as int]));
                    assert(decreases_to!(members@[i as int] => members@[i as int].1));
                }
                if contains_control(members[i].0.as_str()) || json_has_unsupported_text(
                    &members[i].1,
                    depth + 1,
                ) {
                    assert(crate::text::has_control(members@[i as int].0@) || unsupported_text(
                        members@[i as int].1,
                        depth as nat + 1,
                    ));
                    return true;
                }
                i = i + 1;
            }
            false
        },
        _ => false,
    }
}

} // verus!
