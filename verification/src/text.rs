//! Text comparisons and the character classes that the validation rules use.
use vstd::prelude::*;
use vstd::string::StringExecFns;

verus! {

/// Whether `a` and `b` hold the same characters.
pub fn same_text(a: &str, b: &str) -> (result: bool)
    ensures
        result == (a@ == b@),
{
    a.to_owned() == b.to_owned()
}

/// Whether two optional texts are both absent, or hold the same characters.
pub fn same_optional_text(a: &Option<String>, b: &Option<String>) -> (result: bool)
    ensures
        result == (optional_text(*a) == optional_text(*b)),
{
    match (a, b) {
        (None, None) => true,
        (Some(left), Some(right)) => same_text(left.as_str(), right.as_str()),
        _ => false,
    }
}

/// The characters of an optional text.
pub open spec fn optional_text(value: Option<String>) -> Option<Seq<char>> {
    match value {
        Some(text) => Some(text@),
        None => None,
    }
}

/// The control codes of Unicode (general category `Cc`).
pub open spec fn control_char(c: char) -> bool {
    c as u32 <= 0x1f || 0x7f <= c as u32 <= 0x9f
}

/// Whether some character of `text` is a control code.
pub open spec fn has_control(text: Seq<char>) -> bool {
    exists|i: int| 0 <= i < text.len() && control_char(#[trigger] text[i])
}

/// The white space of Unicode (property `White_Space`).
pub open spec fn white_space(c: char) -> bool {
    let code = c as u32;
    ||| 0x9 <= code <= 0xd
    ||| code == 0x20
    ||| code == 0x85
    ||| code == 0xa0
    ||| code == 0x1680
    ||| 0x2000 <= code <= 0x200a
    ||| code == 0x2028
    ||| code == 0x2029
    ||| code == 0x202f
    ||| code == 0x205f
    ||| code == 0x3000
}

/// Whether `text` is empty or holds white space only.
pub open spec fn blank(text: Seq<char>) -> bool {
    forall|i: int| 0 <= i < text.len() ==> white_space(#[trigger] text[i])
}

/// Whether `c` is a control code.
pub fn is_control(c: char) -> (result: bool)
    ensures
        result == control_char(c),
{
    let code: u32 = c as u32;
    code <= 0x1f || (0x7f <= code && code <= 0x9f)
}

/// Whether `c` is white space.
pub fn is_white_space(c: char) -> (result: bool)
    ensures
        result == white_space(c),
{
    let code: u32 = c as u32;
    (0x9 <= code && code <= 0xd) || code == 0x20 || code == 0x85 || code == 0xa0 || code == 0x1680
        || (0x2000 <= code && code <= 0x200a) || code == 0x2028 || code == 0x2029 || code == 0x202f
        || code == 0x205f || code == 0x3000
}

/// Whether some character of `value` is a control code.
pub fn contains_control(value: &str) -> (result: bool)
    ensures
        result == has_control(value@),
{
    let mut found: bool = false;
    for c in it: value.chars()
        invariant
            it.seq() == value@,
            found == exists|i: int| 0 <= i < it.index() && control_char(#[trigger] value@[i]),
    {
        if is_control(c) {
            assert(control_char(value@[it.index()]));
            found = true;
        }
    }
    found
}

/// Whether `value` is empty or holds white space only.
pub fn is_blank(value: &str) -> (result: bool)
    ensures
        result == blank(value@),
{
    let mut only_space: bool = true;
    for c in it: value.chars()
        invariant
            it.seq() == value@,
            only_space == forall|i: int|
                0 <= i < it.index() ==> white_space(#[trigger] value@[i]),
    {
        if !is_white_space(c) {
            assert(!white_space(value@[it.index()]));
            only_space = false;
        }
    }
    only_space
}

/// Whether `value` has more than `limit` characters.
pub fn longer_than(value: &str, limit: usize) -> (result: bool)
    ensures
        result == (value@.len() > limit),
{
    let mut seen: usize = 0;
    let mut longer: bool = false;
    for c in it: value.chars()
        invariant
            it.seq() == value@,
            longer == (it.index() > limit),
            seen == if it.index() <= limit { it.index() } else { limit as int },
    {
        if seen < limit {
            seen = seen + 1;
        } else {
            longer = true;
        }
    }
    longer
}

/// The number of bytes of `value` in UTF-8.
pub fn byte_length(value: &str) -> (result: usize)
    ensures
        result == vstd::utf8::encode_utf8(value@).len(),
{
    value.as_bytes().len()
}

/// The digit that stands for a number below ten.
pub open spec fn digit_char(value: nat) -> char {
    if value == 0 {
        '0'
    } else if value == 1 {
        '1'
    } else if value == 2 {
        '2'
    } else if value == 3 {
        '3'
    } else if value == 4 {
        '4'
    } else if value == 5 {
        '5'
    } else if value == 6 {
        '6'
    } else if value == 7 {
        '7'
    } else if value == 8 {
        '8'
    } else {
        '9'
    }
}

/// A number in decimal digits.
pub open spec fn decimal_text(value: nat) -> Seq<char>
    decreases value,
{
    if value < 10 {
        seq![digit_char(value)]
    } else {
        decimal_text(value / 10).push(digit_char(value % 10))
    }
}

/// The digit that stands for a number below ten, as a text.
fn digit(value: u64) -> (result: &'static str)
    requires
        value < 10,
    ensures
        result@ == seq![digit_char(value as nat)],
{
    proof {
        reveal_strlit("0");
        reveal_strlit("1");
        reveal_strlit("2");
        reveal_strlit("3");
        reveal_strlit("4");
        reveal_strlit("5");
        reveal_strlit("6");
        reveal_strlit("7");
        reveal_strlit("8");
        reveal_strlit("9");
    }
    let result: &'static str = if value == 0 {
        "0"
    } else if value == 1 {
        "1"
    } else if value == 2 {
        "2"
    } else if value == 3 {
        "3"
    } else if value == 4 {
        "4"
    } else if value == 5 {
        "5"
    } else if value == 6 {
        "6"
    } else if value == 7 {
        "7"
    } else if value == 8 {
        "8"
    } else {
        "9"
    };
    assert(result@ =~= seq![digit_char(value as nat)]);
    result
}

/// A number in decimal digits.
pub fn decimal(value: u64) -> (result: String)
    ensures
        result@ == decimal_text(value as nat),
    decreases value,
{
    if value < 10 {
        digit(value).to_owned()
    } else {
        let mut text: String = decimal(value / 10);
        text.append(digit(value % 10));
        assert(text@ =~= decimal_text(value as nat));
        text
    }
}

/// The texts one after the other.
pub fn joined(first: &str, second: &str) -> (result: String)
    ensures
        result@ == first@ + second@,
{
    let mut text: String = first.to_owned();
    text.append(second);
    text
}

/// The characters of a text.
pub fn characters(value: &str) -> (result: Vec<char>)
    ensures
        result@ == value@,
{
    let mut chars: Vec<char> = Vec::new();
    for c in it: value.chars()
        invariant
            it.seq() == value@,
            chars@ == value@.take(it.index()),
    {
        chars.push(c);
        assert(chars@ =~= value@.take(it.index() + 1));
    }
    assert(value@.take(value@.len() as int) =~= value@);
    chars
}

} // verus!
