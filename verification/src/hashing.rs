//! Bytes, hexadecimal digits and digests.
use vstd::prelude::*;
use vstd::string::StringExecFns;

use crate::outside::sha256;
use crate::text::characters;

verus! {

/// The `count` low bytes of a number, the most significant one first.
pub open spec fn be_bytes(value: nat, count: nat) -> Seq<u8>
    decreases count,
{
    if count == 0 {
        Seq::empty()
    } else {
        be_bytes(value / 256, (count - 1) as nat).push((value % 256) as u8)
    }
}

/// The big-endian bytes of a number have the length that was asked for.
pub proof fn be_bytes_length(value: nat, count: nat)
    ensures
        be_bytes(value, count).len() == count,
    decreases count,
{
    if count > 0 {
        be_bytes_length(value / 256, (count - 1) as nat);
    }
}

/// Numbers that fit in the bytes are told apart by them.
pub proof fn be_bytes_injective(a: nat, b: nat, count: nat)
    requires
        be_bytes(a, count) == be_bytes(b, count),
        a < vstd::arithmetic::power::pow(256, count),
        b < vstd::arithmetic::power::pow(256, count),
    ensures
        a == b,
    decreases count,
{
    reveal(vstd::arithmetic::power::pow);
    if count > 0 {
        be_bytes_length(a / 256, (count - 1) as nat);
        be_bytes_length(b / 256, (count - 1) as nat);
        let left = be_bytes(a, count);
        let right = be_bytes(b, count);
        assert(left.last() == (a % 256) as u8);
        assert(right.last() == (b % 256) as u8);
        assert(left.drop_last() =~= be_bytes(a / 256, (count - 1) as nat));
        assert(right.drop_last() =~= be_bytes(b / 256, (count - 1) as nat));
        let below = vstd::arithmetic::power::pow(256, (count - 1) as nat);
        assert(vstd::arithmetic::power::pow(256, count) == 256 * below);
        be_bytes_injective(a / 256, b / 256, (count - 1) as nat);
    }
}

/// The low bytes of a number, the most significant one first.
pub fn number_bytes(value: u128, count: usize) -> (result: Vec<u8>)
    ensures
        result@ == be_bytes(value as nat, count as nat),
    decreases count,
{
    if count == 0 {
        Vec::new()
    } else {
        let mut bytes: Vec<u8> = number_bytes(value / 256, count - 1);
        bytes.push((value % 256) as u8);
        bytes
    }
}

/// The number that the eight bytes of a signed number stand for.
pub open spec fn unsigned_of(value: i64) -> nat {
    if value >= 0 {
        value as nat
    } else {
        (value + 0x1_0000_0000_0000_0000) as nat
    }
}

/// The eight bytes of a signed number, the most significant one first.
pub fn signed_bytes(value: i64) -> (result: Vec<u8>)
    ensures
        result@ == be_bytes(unsigned_of(value), 8),
{
    let wide: i128 = if value >= 0 {
        value as i128
    } else {
        value as i128 + 0x1_0000_0000_0000_0000
    };
    number_bytes(wide as u128, 8)
}

/// Appends bytes to bytes.
pub fn append_bytes(target: &mut Vec<u8>, source: &Vec<u8>)
    ensures
        final(target)@ == old(target)@ + source@,
{
    let mut i: usize = 0;
    while i < source.len()
        invariant
            i <= source.len(),
            target@ == old(target)@ + source@.take(i as int),
        decreases source.len() - i,
    {
        target.push(source[i]);
        i = i + 1;
        assert(target@ =~= old(target)@ + source@.take(i as int));
    }
    assert(source@.take(i as int) =~= source@);
}

/// Appends the thirty-two bytes of a digest.
pub fn append_hash(target: &mut Vec<u8>, hash: &[u8; 32])
    ensures
        final(target)@ == old(target)@ + hash@,
{
    let mut i: usize = 0;
    while i < 32
        invariant
            i <= 32,
            hash@.len() == 32,
            target@ == old(target)@ + hash@.take(i as int),
        decreases 32 - i,
    {
        target.push(hash[i]);
        i = i + 1;
        assert(target@ =~= old(target)@ + hash@.take(i as int));
    }
    assert(hash@.take(i as int) =~= hash@);
}

/// Appends the UTF-8 bytes of a text.
pub fn append_text(target: &mut Vec<u8>, text: &str)
    ensures
        final(target)@ == old(target)@ + vstd::utf8::encode_utf8(text@),
{
    let bytes: &[u8] = text.as_bytes();
    let mut i: usize = 0;
    while i < bytes.len()
        invariant
            i <= bytes@.len(),
            bytes@ == vstd::utf8::encode_utf8(text@),
            target@ == old(target)@ + bytes@.take(i as int),
        decreases bytes@.len() - i,
    {
        target.push(bytes[i]);
        i = i + 1;
        assert(target@ =~= old(target)@ + bytes@.take(i as int));
    }
    assert(bytes@.take(i as int) =~= bytes@);
}

/// Whether two digests are the same.
pub fn same_hash(a: &[u8; 32], b: &[u8; 32]) -> (result: bool)
    ensures
        result == (a@ == b@),
{
    let mut i: usize = 0;
    while i < 32
        invariant
            i <= 32,
            a@.len() == 32,
            b@.len() == 32,
            forall|k: int| 0 <= k < i ==> a@[k] == b@[k],
        decreases 32 - i,
    {
        if a[i] != b[i] {
            return false;
        }
        i = i + 1;
    }
    assert(a@ =~= b@);
    true
}

/// Whether two sequences of bytes are the same.
pub fn same_bytes(a: &Vec<u8>, b: &Vec<u8>) -> (result: bool)
    ensures
        result == (a@ == b@),
{
    if a.len() != b.len() {
        return false;
    }
    let mut i: usize = 0;
    while i < a.len()
        invariant
            i <= a.len(),
            a@.len() == b@.len(),
            forall|k: int| 0 <= k < i ==> a@[k] == b@[k],
        decreases a.len() - i,
    {
        if a[i] != b[i] {
            return false;
        }
        i = i + 1;
    }
    assert(a@ =~= b@);
    true
}

/// Whether bytes are those of a digest.
pub fn same_bytes_and_hash(a: &Vec<u8>, b: &[u8; 32]) -> (result: bool)
    ensures
        result == (a@ == b@),
{
    if a.len() != 32 {
        assert(b@.len() == 32);
        return false;
    }
    let mut i: usize = 0;
    while i < 32
        invariant
            i <= 32,
            a@.len() == 32,
            b@.len() == 32,
            forall|k: int| 0 <= k < i ==> a@[k] == b@[k],
        decreases 32 - i,
    {
        if a[i] != b[i] {
            return false;
        }
        i = i + 1;
    }
    assert(a@ =~= b@);
    true
}

/// The digest of bytes.
pub fn hash_bytes(value: &Vec<u8>) -> (result: [u8; 32])
    ensures
        result@ == crate::outside::sha256_of(value@),
{
    sha256(value)
}

/// The digest of a text.
pub fn hash_text(value: &str) -> (result: [u8; 32])
    ensures
        result@ == crate::outside::sha256_of(vstd::utf8::encode_utf8(value@)),
{
    let mut bytes: Vec<u8> = Vec::new();
    append_text(&mut bytes, value);
    assert(bytes@ =~= vstd::utf8::encode_utf8(value@));
    sha256(&bytes)
}

/// The digest of a document behind the name of what it is used for, so that
/// digests for different uses never mix.
pub fn hash_in_domain(domain: &str, document: &Vec<u8>) -> (result: [u8; 32])
    ensures
        result@ == crate::outside::sha256_of(vstd::utf8::encode_utf8(domain@) + document@),
{
    let mut bytes: Vec<u8> = Vec::new();
    append_text(&mut bytes, domain);
    append_bytes(&mut bytes, document);
    assert(bytes@ =~= vstd::utf8::encode_utf8(domain@) + document@);
    sha256(&bytes)
}

/// The lower-case hexadecimal digit of a number below sixteen.
pub open spec fn hex_char(value: nat) -> char {
    if value < 10 {
        crate::text::digit_char(value)
    } else if value == 10 {
        'a'
    } else if value == 11 {
        'b'
    } else if value == 12 {
        'c'
    } else if value == 13 {
        'd'
    } else if value == 14 {
        'e'
    } else {
        'f'
    }
}

/// The number that a hexadecimal digit stands for, in either case.
pub open spec fn hex_value(c: char) -> Option<nat> {
    let code = c as u32;
    if 0x30 <= code <= 0x39 {
        Some((code - 0x30) as nat)
    } else if 0x61 <= code <= 0x66 {
        Some((code - 0x61 + 10) as nat)
    } else if 0x41 <= code <= 0x46 {
        Some((code - 0x41 + 10) as nat)
    } else {
        None
    }
}

/// The hexadecimal digits of bytes, two for each byte.
pub open spec fn hex_text(bytes: Seq<u8>) -> Seq<char>
    decreases bytes.len(),
{
    if bytes.len() == 0 {
        Seq::empty()
    } else {
        hex_text(bytes.drop_last()) + seq![
            hex_char((bytes.last() / 16) as nat),
            hex_char((bytes.last() % 16) as nat),
        ]
    }
}

/// A digest as a text: the name of the algorithm and the hexadecimal digits.
pub open spec fn prefixed_text(bytes: Seq<u8>) -> Seq<char> {
    "sha256:"@ + hex_text(bytes)
}

fn hex_digit(value: u8) -> (result: &'static str)
    requires
        value < 16,
    ensures
        result@ == seq![hex_char(value as nat)],
{
    proof {
        reveal_strlit("0");
        reveal_strlit("1");
        reveal_strlit("2");
        reveal_strlit("3");
        reveal_strlit("4");
        reveal_strlit("5");
        reveal_strlit("6");
        reveal_strlit("7");
        reveal_strlit("8");
        reveal_strlit("9");
        reveal_strlit("a");
        reveal_strlit("b");
        reveal_strlit("c");
        reveal_strlit("d");
        reveal_strlit("e");
        reveal_strlit("f");
    }
    let result: &'static str = if value == 0 {
        "0"
    } else if value == 1 {
        "1"
    } else if value == 2 {
        "2"
    } else if value == 3 {
        "3"
    } else if value == 4 {
        "4"
    } else if value == 5 {
        "5"
    } else if value == 6 {
        "6"
    } else if value == 7 {
        "7"
    } else if value == 8 {
        "8"
    } else if value == 9 {
        "9"
    } else if value == 10 {
        "a"
    } else if value == 11 {
        "b"
    } else if value == 12 {
        "c"
    } else if value == 13 {
        "d"
    } else if value == 14 {
        "e"
    } else {
        "f"
    };
    assert(result@ =~= seq![hex_char(value as nat)]);
    result
}

/// Bytes as a text: the name of the digest and the hexadecimal digits.
pub fn prefixed_hex(bytes: &Vec<u8>) -> (result: String)
    ensures
        result@ == prefixed_text(bytes@),
{
    let mut text: String = "sha256:".to_owned();
    let mut i: usize = 0;
    while i < bytes.len()
        invariant
            i <= bytes.len(),
            text@ == prefixed_text(bytes@.take(i as int)),
        decreases bytes.len() - i,
    {
        text.append(hex_digit(bytes[i] / 16));
        text.append(hex_digit(bytes[i] % 16));
        proof {
            assert(bytes@.take(i + 1).drop_last() =~= bytes@.take(i as int));
            assert(text@ =~= prefixed_text(bytes@.take(i + 1)));
        }
        i = i + 1;
    }
    assert(bytes@.take(i as int) =~= bytes@);
    text
}

/// The digest as a text.
pub fn encoded_hash(hash: [u8; 32]) -> (result: String)
    ensures
        result@ == prefixed_text(hash@),
{
    let mut bytes: Vec<u8> = Vec::new();
    append_hash(&mut bytes, &hash);
    assert(bytes@ =~= hash@);
    prefixed_hex(&bytes)
}

/// Whether a text has the form of a digest: the name of the algorithm, and
/// sixty-four hexadecimal digits in either case.
pub open spec fn is_hash_text(text: Seq<char>) -> bool {
    &&& text.len() == 71
    &&& text.take(7) == "sha256:"@
    &&& forall|i: int| 7 <= i < 71 ==> hex_value(#[trigger] text[i]) is Some
}

/// The byte at `k` of the digest that a text stands for.
pub open spec fn hash_text_byte(text: Seq<char>, k: int) -> nat {
    hex_value(text[7 + 2 * k])->0 * 16 + hex_value(text[8 + 2 * k])->0
}

fn digit_value(c: char) -> (result: Option<u8>)
    ensures
        match result {
            Some(value) => hex_value(c) == Some(value as nat) && value < 16,
            None => hex_value(c) is None,
        },
{
    let code: u32 = c as u32;
    if 0x30 <= code && code <= 0x39 {
        Some((code - 0x30) as u8)
    } else if 0x61 <= code && code <= 0x66 {
        Some((code - 0x61 + 10) as u8)
    } else if 0x41 <= code && code <= 0x46 {
        Some((code - 0x41 + 10) as u8)
    } else {
        None
    }
}

/// The digest that a text stands for, if it has the form of one.
pub fn read_hash(value: &str) -> (result: Option<[u8; 32]>)
    ensures
        match result {
            Some(hash) => is_hash_text(value@) && forall|k: int|
                0 <= k < 32 ==> #[trigger] hash@[k] == hash_text_byte(value@, k),
            None => !is_hash_text(value@),
        },
{
    let chars: Vec<char> = characters(value);
    if chars.len() != 71 {
        return None;
    }
    let prefix: Vec<char> = characters("sha256:");
    proof {
        reveal_strlit("sha256:");
        assert("sha256:"@.len() == 7);
    }
    let mut i: usize = 0;
    while i < 7
        invariant
            i <= 7,
            chars@.len() == 71,
            prefix@.len() == 7,
            forall|k: int| 0 <= k < i ==> chars@[k] == prefix@[k],
            chars@ == value@,
            prefix@ == "sha256:"@,
        decreases 7 - i,
    {
        if chars[i] != prefix[i] {
            assert(value@.take(7)[i as int] != "sha256:"@[i as int]);
            return None;
        }
        i = i + 1;
    }
    assert(value@.take(7) =~= "sha256:"@);
    let mut hash: [u8; 32] = [0u8;32];
    let mut k: usize = 0;
    while k < 32
        invariant
            k <= 32,
            chars@.len() == 71,
            chars@ == value@,
            hash@.len() == 32,
            value@.take(7) == "sha256:"@,
            forall|j: int| 7 <= j < 7 + 2 * k ==> hex_value(#[trigger] value@[j]) is Some,
            forall|j: int| 0 <= j < k ==> #[trigger] hash@[j] == hash_text_byte(value@, j),
        decreases 32 - k,
    {
        let high = digit_value(chars[7 + 2 * k]);
        let low = digit_value(chars[8 + 2 * k]);
        match (high, low) {
            (Some(h), Some(l)) => {
                hash[k] = h * 16 + l;
            },
            _ => {
                assert(hex_value(value@[7 + 2 * k]) is None || hex_value(value@[8 + 2 * k]) is None);
                return None;
            },
        }
        k = k + 1;
    }
    Some(hash)
}

proof fn lemma_hex_digit(value: nat)
    requires
        value < 16,
    ensures
        hex_value(hex_char(value)) == Some(value),
{
}

proof fn lemma_hex_text(bytes: Seq<u8>)
    ensures
        hex_text(bytes).len() == 2 * bytes.len(),
        forall|k: int|
            0 <= k < bytes.len() ==> hex_text(bytes)[2 * k] == hex_char(
                (#[trigger] bytes[k] / 16) as nat,
            ) && hex_text(bytes)[2 * k + 1] == hex_char((bytes[k] % 16) as nat),
    decreases bytes.len(),
{
    if bytes.len() > 0 {
        let shorter = bytes.drop_last();
        lemma_hex_text(shorter);
        assert forall|k: int| 0 <= k < bytes.len() implies hex_text(bytes)[2 * k] == hex_char(
            (#[trigger] bytes[k] / 16) as nat,
        ) && hex_text(bytes)[2 * k + 1] == hex_char((bytes[k] % 16) as nat) by {
            if k < shorter.len() {
                assert(shorter[k] == bytes[k]);
            }
        }
    }
}

/// The text of a digest has the form of a digest, and stands for that digest: it is
/// read back as it was written.
pub proof fn hash_text_reads_back(hash: Seq<u8>)
    requires
        hash.len() == 32,
    ensures
        is_hash_text(prefixed_text(hash)),
        forall|k: int| 0 <= k < 32 ==> #[trigger] hash[k] == hash_text_byte(prefixed_text(hash), k),
{
    lemma_hex_text(hash);
    reveal_strlit("sha256:");
    assert("sha256:"@.len() == 7);
    let text = prefixed_text(hash);
    assert(text.take(7) =~= "sha256:"@);
    assert forall|i: int| 7 <= i < 71 implies hex_value(#[trigger] text[i]) is Some by {
        let k = (i - 7) / 2;
        assert(text[i] == hex_text(hash)[i - 7]);
        assert(hash[k] == hash[k]);
        lemma_hex_digit((hash[k] / 16) as nat);
        lemma_hex_digit((hash[k] % 16) as nat);
        assert(i - 7 == 2 * k || i - 7 == 2 * k + 1);
    }
    assert forall|k: int| 0 <= k < 32 implies #[trigger] hash[k] == hash_text_byte(text, k) by {
        lemma_hex_digit((hash[k] / 16) as nat);
        lemma_hex_digit((hash[k] % 16) as nat);
        assert(text[7 + 2 * k] == hex_text(hash)[2 * k]);
        assert(text[8 + 2 * k] == hex_text(hash)[2 * k + 1]);
    }
}

} // verus!
