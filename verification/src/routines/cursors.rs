//! Cursors: the places at which pages of occurrences continue, as texts.
use vstd::prelude::*;

use crate::hashing::append_text;
use crate::outside::{base64_decode, base64_encode, uuid_text};
use crate::routines::model::RoutineOccurrenceError;
use crate::text::{byte_length, characters, decimal, same_text};
use crate::time::{DatabaseScope, Uuid};

verus! {

/// What every cursor begins with.
pub const CURSOR_PREFIX: &'static str = "DWR1.";

/// A place in the changes of a workspace.
#[derive(Clone, Copy, Debug, PartialEq, Eq, Structural)]
pub struct Cursor {
    pub workspace: Uuid,
    /// The head at which a list was captured; a cursor without one goes on with changes.
    pub list_head: Option<u64>,
    /// The sequence of the last change before this place.
    pub after: u64,
}

/// The text of an optional number.
pub open spec fn optional_number_text(value: Option<u64>) -> Seq<char> {
    match value {
        Some(number) => crate::text::decimal_text(number as nat),
        None => "null"@,
    }
}

/// What stands before the numbers of a cursor.
pub open spec fn document_start(workspace: Uuid) -> Seq<char> {
    "{\"workspace\":\""@ + crate::outside::text_of_uuid(workspace) + "\",\"list_head\":"@
}

/// A cursor as a document.
pub open spec fn cursor_document(cursor: Cursor) -> Seq<char> {
    document_start(cursor.workspace) + optional_number_text(cursor.list_head) + ",\"after\":"@
        + crate::text::decimal_text(cursor.after as nat) + "}"@
}

/// A cursor as a text: the document in base64, behind the prefix.
pub open spec fn cursor_text(cursor: Cursor) -> Seq<char> {
    CURSOR_PREFIX@ + crate::outside::base64_text(
        vstd::utf8::encode_utf8(cursor_document(cursor)),
    )
}

/// Whether a text is that of a cursor of the workspace.
pub open spec fn reads_as(text: Seq<char>, workspace: Uuid, cursor: Cursor) -> bool {
    &&& text == cursor_text(cursor)
    &&& vstd::utf8::encode_utf8(text).len() <= 512
    &&& cursor.workspace == workspace
    &&& cursor.after <= i64::MAX
    &&& match cursor.list_head {
        Some(head) => head <= i64::MAX,
        None => true,
    }
}

/// Whether a character is a decimal digit.
pub open spec fn is_digit(c: char) -> bool {
    '0' <= c <= '9'
}

/// Where the digits that begin at `from` end.
pub open spec fn digits_end(chars: Seq<char>, from: int) -> int
    decreases chars.len() - from,
{
    if 0 <= from < chars.len() && is_digit(chars[from]) {
        digits_end(chars, from + 1)
    } else {
        from
    }
}

/// The number that digits stand for.
pub open spec fn digits_value(digits: Seq<char>) -> nat
    decreases digits.len(),
{
    if digits.len() == 0 {
        0
    } else {
        digits_value(digits.drop_last()) * 10 + (digits.last() as nat - '0' as nat) as nat
    }
}

proof fn lemma_decimal(value: nat)
    ensures
        crate::text::decimal_text(value).len() > 0,
        forall|k: int|
            0 <= k < crate::text::decimal_text(value).len() ==> is_digit(
                #[trigger] crate::text::decimal_text(value)[k],
            ),
        digits_value(crate::text::decimal_text(value)) == value,
    decreases value,
{
    reveal_with_fuel(digits_value, 2);
    let text = crate::text::decimal_text(value);
    if value < 10 {
        assert(text.drop_last() =~= Seq::<char>::empty());
    } else {
        lemma_decimal(value / 10);
        assert(text.drop_last() =~= crate::text::decimal_text(value / 10));
    }
}

proof fn lemma_digits_end(chars: Seq<char>, from: int, end: int)
    requires
        0 <= from <= end <= chars.len(),
        forall|k: int| from <= k < end ==> is_digit(#[trigger] chars[k]),
        end == chars.len() || !is_digit(chars[end]),
    ensures
        digits_end(chars, from) == end,
    decreases end - from,
{
    if from < end {
        lemma_digits_end(chars, from + 1, end);
    }
}

proof fn lemma_digits_grow(digits: Seq<char>, count: int)
    requires
        0 <= count <= digits.len(),
    ensures
        digits_value(digits.take(count)) <= digits_value(digits),
    decreases digits.len(),
{
    if count < digits.len() {
        assert(digits.drop_last().take(count) =~= digits.take(count));
        lemma_digits_grow(digits.drop_last(), count);
    } else {
        assert(digits.take(count) =~= digits);
    }
}

proof fn lemma_digits_end_after(chars: Seq<char>, from: int, i: int)
    requires
        0 <= from <= i <= chars.len(),
        forall|k: int| from <= k < i ==> is_digit(#[trigger] chars[k]),
    ensures
        digits_end(chars, from) == digits_end(chars, i),
        i <= digits_end(chars, i) <= chars.len(),
    decreases i - from, chars.len() - i,
{
    if from < i {
        lemma_digits_end_after(chars, from + 1, i);
    } else if i < chars.len() && is_digit(chars[i]) {
        lemma_digits_end_after(chars, i + 1, i + 1);
    }
}

/// The number whose digits begin at `from`, and where they end, if there is one.
fn read_number(chars: &Vec<char>, from: usize) -> (result: Option<(u64, usize)>)
    requires
        from <= chars@.len(),
    ensures
        ({
            let end = digits_end(chars@, from as int);
            let value = digits_value(chars@.subrange(from as int, end));
            if end == from || value > u64::MAX {
                result is None
            } else {
                result matches Some((number, next)) && number == value && next == end
            }
        }),
{
    let mut value: u64 = 0;
    let mut i: usize = from;
    assert(chars@.subrange(from as int, from as int) =~= Seq::<char>::empty());
    while i < chars.len() && '0' <= chars[i] && chars[i] <= '9'
        invariant
            from <= i <= chars@.len(),
            forall|k: int| from <= k < i ==> is_digit(#[trigger] chars@[k]),
            value == digits_value(chars@.subrange(from as int, i as int)),
        decreases chars.len() - i,
    {
        let digit: u64 = (chars[i] as u32 - '0' as u32) as u64;
        let ghost longer = chars@.subrange(from as int, i + 1);
        let ghost all = chars@.subrange(from as int, digits_end(chars@, from as int));
        proof {
            assert(longer.drop_last() =~= chars@.subrange(from as int, i as int));
            lemma_digits_end_after(chars@, from as int, i + 1);
            assert(all.take(i + 1 - from) =~= longer);
            lemma_digits_grow(all, i + 1 - from);
        }
        match value.checked_mul(10) {
            Some(tens) => match tens.checked_add(digit) {
                Some(sum) => {
                    value = sum;
                },
                None => {
                    return None;
                },
            },
            None => {
                return None;
            },
        }
        i = i + 1;
    }
    proof {
        lemma_digits_end(chars@, from as int, i as int);
    }
    if i == from {
        None
    } else {
        Some((value, i))
    }
}

/// Whether a text stands at a place.
fn stands_at(chars: &Vec<char>, from: usize, text: &Vec<char>) -> (result: bool)
    requires
        from <= chars@.len(),
    ensures
        result == (from + text@.len() <= chars@.len() && chars@.subrange(
            from as int,
            from + text@.len(),
        ) == text@),
{
    if text.len() > chars.len() - from {
        return false;
    }
    let mut i: usize = 0;
    while i < text.len()
        invariant
            i <= text@.len(),
            from + text@.len() <= chars.len(),
            forall|k: int| 0 <= k < i ==> chars@[from + k] == #[trigger] text@[k],
        decreases text.len() - i,
    {
        if chars[from + i] != text[i] {
            assert(chars@.subrange(from as int, from + text@.len())[i as int] != text@[i as int]);
            return false;
        }
        i = i + 1;
    }
    assert(chars@.subrange(from as int, from + text@.len()) =~= text@);
    true
}

/// The ASCII characters that bytes stand for, if they are all ASCII.
fn ascii_characters(bytes: &Vec<u8>) -> (result: Option<Vec<char>>)
    ensures
        match result {
            Some(chars) => vstd::utf8::is_ascii_chars(chars@) && vstd::utf8::encode_utf8(chars@)
                == bytes@,
            None => exists|k: int| 0 <= k < bytes@.len() && #[trigger] bytes@[k] >= 128,
        },
{
    let mut chars: Vec<char> = Vec::new();
    let mut i: usize = 0;
    while i < bytes.len()
        invariant
            i <= bytes@.len(),
            chars@.len() == i,
            forall|k: int|
                0 <= k < i ==> (#[trigger] chars@[k]) as int == bytes@[k] as int && bytes@[k] < 128,
        decreases bytes.len() - i,
    {
        if bytes[i] >= 128 {
            return None;
        }
        chars.push(bytes[i] as char);
        i = i + 1;
    }
    proof {
        assert(vstd::utf8::is_ascii_chars(chars@));
        vstd::utf8::is_ascii_chars_encode_utf8(chars@);
        assert forall|k: int| 0 <= k < bytes@.len() implies vstd::utf8::encode_utf8(chars@)[k]
            == #[trigger] bytes@[k] by {
            let c = chars@[k];
            assert(c as int == bytes@[k] as int);
            assert(c as u8 == bytes@[k]);
        }
        assert(vstd::utf8::encode_utf8(chars@) =~= bytes@);
    }
    Some(chars)
}

/// Ten to the power of `count`.
spec fn ten_to(count: nat) -> nat
    decreases count,
{
    if count == 0 {
        1
    } else {
        10 * ten_to((count - 1) as nat)
    }
}

proof fn lemma_decimal_length(value: nat, count: nat)
    requires
        count > 0,
        value < ten_to(count),
    ensures
        crate::text::decimal_text(value).len() <= count,
    decreases count,
{
    if value >= 10 {
        assert(ten_to(0) == 1);
        assert(ten_to(1) == 10 * ten_to(0));
        lemma_decimal_length(value / 10, (count - 1) as nat);
    }
}

proof fn lemma_document_literals()
    ensures
        "{\"workspace\":\""@.len() == 14,
        vstd::utf8::is_ascii_chars("{\"workspace\":\""@),
        "\",\"list_head\":"@.len() == 14,
        vstd::utf8::is_ascii_chars("\",\"list_head\":"@),
        ",\"after\":"@.len() == 9,
        vstd::utf8::is_ascii_chars(",\"after\":"@),
        !is_digit(",\"after\":"@[0]),
        "}"@.len() == 1,
        vstd::utf8::is_ascii_chars("}"@),
        !is_digit("}"@[0]),
        "null"@.len() == 4,
        vstd::utf8::is_ascii_chars("null"@),
        !is_digit("null"@[0]),
{
    reveal_strlit("{\"workspace\":\"");
    reveal_strlit("\",\"list_head\":");
    reveal_strlit(",\"after\":");
    reveal_strlit("}");
    reveal_strlit("null");
}

proof fn lemma_number_text(value: u64)
    ensures
        0 < crate::text::decimal_text(value as nat).len() <= 20,
        vstd::utf8::is_ascii_chars(crate::text::decimal_text(value as nat)),
{
    assert(ten_to(20) == 100_000_000_000_000_000_000) by {
        reveal_with_fuel(ten_to, 21);
    }
    lemma_decimal_length(value as nat, 20);
    lemma_decimal(value as nat);
}

proof fn lemma_document_ascii(cursor: Cursor)
    requires
        vstd::utf8::is_ascii_chars(crate::outside::text_of_uuid(cursor.workspace)),
        crate::outside::text_of_uuid(cursor.workspace).len() == 36,
    ensures
        vstd::utf8::is_ascii_chars(cursor_document(cursor)),
        cursor_document(cursor).len() <= 128,
{
    lemma_document_literals();
    lemma_number_text(cursor.after);
    match cursor.list_head {
        Some(head) => {
            lemma_number_text(head);
        },
        None => {},
    }
}

/// Writes a cursor as a text.
pub fn encode_cursor(cursor: &Cursor) -> (result: String)
    ensures
        result@ == cursor_text(*cursor),
        vstd::utf8::encode_utf8(result@).len() <= 512,
{
    let workspace: String = uuid_text(cursor.workspace);
    let mut document: String = "{\"workspace\":\"".to_owned();
    document.append(workspace.as_str());
    document.append("\",\"list_head\":");
    match cursor.list_head {
        Some(head) => {
            document.append(decimal(head).as_str());
        },
        None => {
            document.append("null");
        },
    }
    document.append(",\"after\":");
    document.append(decimal(cursor.after).as_str());
    document.append("}");
    let mut bytes: Vec<u8> = Vec::new();
    append_text(&mut bytes, document.as_str());
    proof {
        lemma_document_ascii(*cursor);
        assert(document@ =~= cursor_document(*cursor));
        assert(bytes@ =~= vstd::utf8::encode_utf8(cursor_document(*cursor)));
        vstd::utf8::is_ascii_chars_encode_utf8(cursor_document(*cursor));
    }
    let encoded: String = base64_encode(&bytes);
    let mut text: String = CURSOR_PREFIX.to_owned();
    text.append(encoded.as_str());
    proof {
        reveal_strlit("DWR1.");
        assert(CURSOR_PREFIX@.len() == 5);
        assert(vstd::utf8::is_ascii_chars(text@));
        vstd::utf8::is_ascii_chars_encode_utf8(text@);
    }
    text
}

/// The cursor that a document is written from, if it is one of the workspace.
fn read_document(chars: &Vec<char>, workspace: Uuid) -> (result: Option<Cursor>)
    ensures
        result matches Some(cursor) ==> cursor.workspace == workspace,
        forall|cursor: Cursor|
            cursor.workspace == workspace && chars@ == #[trigger] cursor_document(cursor)
                ==> result == Some(cursor),
{
    let mut start: String = "{\"workspace\":\"".to_owned();
    start.append(uuid_text(workspace).as_str());
    start.append("\",\"list_head\":");
    let prefix: Vec<char> = characters(start.as_str());
    proof {
        assert(prefix@ =~= document_start(workspace));
        lemma_document_literals();
        assert forall|cursor: Cursor|
            cursor.workspace == workspace && chars@ == #[trigger] cursor_document(
                cursor,
            ) implies prefix@.len() <= chars@.len() && chars@.subrange(0, prefix@.len() as int)
            == prefix@ by {
            assert(chars@.subrange(0, prefix@.len() as int) =~= prefix@);
        }
    }
    if !stands_at(chars, 0, &prefix) {
        return None;
    }
    let from: usize = prefix.len();
    let empty: Vec<char> = characters("null");
    let (list_head, middle): (Option<u64>, usize) = if stands_at(chars, from, &empty) {
        (None, from + empty.len())
    } else {
        match read_number(chars, from) {
            Some((head, next)) => (Some(head), next),
            None => {
                proof {
                    assert forall|cursor: Cursor|
                        cursor.workspace == workspace && chars@ == #[trigger] cursor_document(
                            cursor,
                        ) implies false by {
                        lemma_head_reads(chars@, workspace, cursor);
                    }
                }
                return None;
            },
        }
    };
    proof {
        assert forall|cursor: Cursor|
            cursor.workspace == workspace && chars@ == #[trigger] cursor_document(
                cursor,
            ) implies cursor.list_head == list_head && middle == from + optional_number_text(
            cursor.list_head,
        ).len() by {
            lemma_head_reads(chars@, workspace, cursor);
        }
        assert(middle <= chars@.len()) by {
            lemma_digits_end_after(chars@, from as int, from as int);
        }
    }
    let separator: Vec<char> = characters(",\"after\":");
    if !stands_at(chars, middle, &separator) {
        proof {
            assert forall|cursor: Cursor|
                cursor.workspace == workspace && chars@ == #[trigger] cursor_document(
                    cursor,
                ) implies false by {
                lemma_after_reads(chars@, workspace, cursor);
            }
        }
        return None;
    }
    assert(middle + separator.len() <= chars.len());
    match read_number(chars, middle + separator.len()) {
        Some((after, _)) => {
            proof {
                assert forall|cursor: Cursor|
                    cursor.workspace == workspace && chars@ == #[trigger] cursor_document(
                        cursor,
                    ) implies cursor.after == after by {
                    lemma_after_reads(chars@, workspace, cursor);
                }
            }
            Some(Cursor { workspace, list_head, after })
        },
        None => {
            proof {
                assert forall|cursor: Cursor|
                    cursor.workspace == workspace && chars@ == #[trigger] cursor_document(
                        cursor,
                    ) implies false by {
                    lemma_after_reads(chars@, workspace, cursor);
                }
            }
            None
        },
    }
}

proof fn lemma_head_reads(chars: Seq<char>, workspace: Uuid, cursor: Cursor)
    requires
        cursor.workspace == workspace,
        chars == cursor_document(cursor),
    ensures
        ({
            let from = document_start(workspace).len() as int;
            match cursor.list_head {
                None => from + 4 <= chars.len() && chars.subrange(from, from + 4) == "null"@,
                Some(head) => {
                    let end = from + crate::text::decimal_text(head as nat).len();
                    &&& !(from + 4 <= chars.len() && chars.subrange(from, from + 4) == "null"@)
                    &&& digits_end(chars, from) == end
                    &&& end > from
                    &&& digits_value(chars.subrange(from, end)) == head
                },
            }
        }),
{
    lemma_document_literals();
    let from = document_start(workspace).len() as int;
    match cursor.list_head {
        None => {
            assert(chars.subrange(from, from + 4) =~= "null"@);
        },
        Some(head) => {
            let text = crate::text::decimal_text(head as nat);
            lemma_decimal(head as nat);
            let end = from + text.len();
            assert(chars.subrange(from, end) =~= text);
            assert forall|k: int| from <= k < end implies is_digit(#[trigger] chars[k]) by {
                assert(chars[k] == text[k - from]);
            }
            assert(chars[end] == ",\"after\":"@[0]);
            lemma_digits_end(chars, from, end);
            assert(chars[from] == text[0]);
            if from + 4 <= chars.len() {
                assert(chars.subrange(from, from + 4)[0] == chars[from]);
            }
        },
    }
}

proof fn lemma_after_reads(chars: Seq<char>, workspace: Uuid, cursor: Cursor)
    requires
        cursor.workspace == workspace,
        chars == cursor_document(cursor),
    ensures
        ({
            let middle = document_start(workspace).len() + optional_number_text(
                cursor.list_head,
            ).len() as int;
            let from = middle + 9;
            let end = from + crate::text::decimal_text(cursor.after as nat).len();
            &&& from <= chars.len()
            &&& chars.subrange(middle, from) == ",\"after\":"@
            &&& digits_end(chars, from) == end
            &&& end > from
            &&& digits_value(chars.subrange(from, end)) == cursor.after
        }),
{
    lemma_document_literals();
    let middle = document_start(workspace).len() + optional_number_text(
        cursor.list_head,
    ).len() as int;
    let from = middle + 9;
    let text = crate::text::decimal_text(cursor.after as nat);
    let end = from + text.len();
    lemma_decimal(cursor.after as nat);
    assert(chars.subrange(middle, from) =~= ",\"after\":"@);
    assert(chars.subrange(from, end) =~= text);
    assert forall|k: int| from <= k < end implies is_digit(#[trigger] chars[k]) by {
        assert(chars[k] == text[k - from]);
    }
    assert(chars[end] == "}"@[0]);
    lemma_digits_end(chars, from, end);
}

/// Reads a cursor of a workspace from a text. A text is read if and only if it is what
/// [`encode_cursor`] writes for a cursor of that workspace whose numbers the database
/// can hold, and then that cursor is read.
pub fn decode_cursor(value: &str, scope: DatabaseScope) -> (result: Result<
    Cursor,
    RoutineOccurrenceError,
>)
    ensures
        match result {
            Ok(cursor) => reads_as(value@, scope.workspace_id, cursor),
            Err(error) => error == RoutineOccurrenceError::InvalidCursor,
        },
        forall|cursor: Cursor| #[trigger]
            reads_as(value@, scope.workspace_id, cursor) ==> result is Ok && result->Ok_0
                == cursor,
{
    let ghost workspace = scope.workspace_id;
    if byte_length(value) > 512 {
        return Err(RoutineOccurrenceError::InvalidCursor);
    }
    let chars: Vec<char> = characters(value);
    let prefix: Vec<char> = characters(CURSOR_PREFIX);
    if !stands_at(&chars, 0, &prefix) {
        proof {
            assert forall|cursor: Cursor| #[trigger]
                reads_as(value@, workspace, cursor) implies false by {
                assert(chars@.subrange(0, prefix@.len() as int) =~= prefix@);
            }
        }
        return Err(RoutineOccurrenceError::InvalidCursor);
    }
    let encoded: &str = value.substring_char(prefix.len(), chars.len());
    proof {
        assert forall|cursor: Cursor| #[trigger]
            reads_as(value@, workspace, cursor) implies encoded@ == crate::outside::base64_text(
            vstd::utf8::encode_utf8(cursor_document(cursor)),
        ) by {
            assert(encoded@ =~= crate::outside::base64_text(
                vstd::utf8::encode_utf8(cursor_document(cursor)),
            ));
        }
    }
    let bytes: Vec<u8> = match base64_decode(encoded) {
        Some(bytes) => bytes,
        None => {
            return Err(RoutineOccurrenceError::InvalidCursor);
        },
    };
    let name: String = uuid_text(scope.workspace_id);
    proof {
        assert forall|cursor: Cursor| #[trigger]
            reads_as(value@, workspace, cursor) implies bytes@ == vstd::utf8::encode_utf8(
            cursor_document(cursor),
        ) && vstd::utf8::is_ascii_chars(cursor_document(cursor)) by {
            lemma_document_ascii(cursor);
        }
    }
    let document: Vec<char> = match ascii_characters(&bytes) {
        Some(document) => document,
        None => {
            proof {
                assert forall|cursor: Cursor| #[trigger]
                    reads_as(value@, workspace, cursor) implies false by {
                    vstd::utf8::is_ascii_chars_encode_utf8(cursor_document(cursor));
                    let k = choose|k: int| 0 <= k < bytes@.len() && #[trigger] bytes@[k] >= 128;
                    assert(cursor_document(cursor)[k] as u8 == bytes@[k]);
                }
            }
            return Err(RoutineOccurrenceError::InvalidCursor);
        },
    };
    proof {
        assert forall|cursor: Cursor| #[trigger]
            reads_as(value@, workspace, cursor) implies document@ == cursor_document(cursor) by {
            vstd::utf8::encode_utf8_decode_utf8(cursor_document(cursor));
            vstd::utf8::encode_utf8_decode_utf8(document@);
        }
    }
    let cursor: Cursor = match read_document(&document, scope.workspace_id) {
        Some(cursor) => cursor,
        None => {
            return Err(RoutineOccurrenceError::InvalidCursor);
        },
    };
    let storable: bool = cursor.after <= 9223372036854775807 && match cursor.list_head {
        Some(head) => head <= 9223372036854775807,
        None => true,
    };
    if !storable || !same_text(encode_cursor(&cursor).as_str(), value) {
        return Err(RoutineOccurrenceError::InvalidCursor);
    }
    Ok(cursor)
}

/// What is written for a cursor is read back as that cursor in its own workspace, as long
/// as the database can hold its numbers.
pub proof fn cursor_reads_back(cursor: Cursor, text: Seq<char>)
    requires
        text == cursor_text(cursor),
        vstd::utf8::encode_utf8(text).len() <= 512,
        cursor.after <= i64::MAX,
        cursor.list_head matches Some(head) ==> head <= i64::MAX,
    ensures
        reads_as(text, cursor.workspace, cursor),
{
}

} // verus!
