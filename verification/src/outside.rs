//! What the library has from other crates: identifiers, the clock, digests,
//! encodings and time zones.
use vstd::prelude::*;

use crate::time::{Instant, Uuid, SECOND};

verus! {

/// `uuid::Uuid::new_v4`: a random identifier. It is never the nil identifier,
/// because the bits of its version are set. Nothing else is said of it: it is
/// random.
#[verifier::external_body]
pub(crate) fn random_uuid() -> (result: Uuid)
    ensures
        result != 0,
{
    uuid::Uuid::new_v4().as_u128()
}

/// What `uuid::Uuid::parse_str` reads from a text, if it reads an identifier.
pub uninterp spec fn uuid_of_text(text: Seq<char>) -> Option<Uuid>;

/// `uuid::Uuid::parse_str`: the identifier that a text stands for. The result is
/// named by [`uuid_of_text`].
#[verifier::external_body]
pub(crate) fn parse_uuid(text: &str) -> (result: Option<Uuid>)
    ensures
        result == uuid_of_text(text@),
{
    uuid::Uuid::parse_str(text).ok().map(|value| value.as_u128())
}

/// `chrono::Utc::now`: seconds and nanoseconds since the Unix epoch. Of the time
/// itself nothing is said, only that both parts are within the range of the crate's
/// calendar.
#[verifier::external_body]
fn clock_reading() -> (result: (i64, u32))
    ensures
        -10_000_000_000_000 < result.0 < 10_000_000_000_000,
        result.1 < 2_000_000_000,
{
    let now = chrono::Utc::now();
    (now.timestamp(), now.timestamp_subsec_nanos())
}

/// The present instant.
pub fn current_instant() -> (result: Instant)
    ensures
        crate::time::in_time_range(result),
{
    let (seconds, nanos) = clock_reading();
    seconds as i128 * SECOND + nanos as i128
}

/// What `sha2::Sha256` computes from a sequence of bytes.
pub uninterp spec fn sha256_of(bytes: Seq<u8>) -> Seq<u8>;

/// `sha2::Sha256::digest`: the SHA-256 digest of the bytes. The result is named by
/// [`sha256_of`].
#[verifier::external_body]
pub(crate) fn sha256(bytes: &Vec<u8>) -> (result: [u8; 32])
    ensures
        result@ == sha256_of(bytes@),
{
    <sha2::Sha256 as sha2::Digest>::digest(bytes.as_slice()).into()
}

/// What `uuid::Uuid::new_v5` makes of a name within a namespace.
pub uninterp spec fn uuid_of_name(namespace: Uuid, name: Seq<u8>) -> Uuid;

/// `uuid::Uuid::new_v5`: the identifier of a name within a namespace. The result is
/// named by [`uuid_of_name`].
#[verifier::external_body]
pub(crate) fn name_uuid(namespace: Uuid, name: &Vec<u8>) -> (result: Uuid)
    ensures
        result == uuid_of_name(namespace, name@),
{
    uuid::Uuid::new_v5(&uuid::Uuid::from_u128(namespace), name.as_slice()).as_u128()
}

/// An identifier in lower-case hexadecimal digits, the most significant one first, with
/// hyphens after the eighth, the twelfth, the sixteenth and the twentieth.
pub open spec fn text_of_uuid(id: Uuid) -> Seq<char> {
    let digits = crate::hashing::hex_text(crate::hashing::be_bytes(id as nat, 16));
    digits.subrange(0, 8) + seq!['-'] + digits.subrange(8, 12) + seq!['-'] + digits.subrange(12, 16)
        + seq!['-'] + digits.subrange(16, 20) + seq!['-'] + digits.subrange(20, 32)
}

/// The `to_string` of `uuid::Uuid`: the identifier in hyphenated lower-case
/// hexadecimal digits, which are thirty-six ASCII characters.
#[verifier::external_body]
pub(crate) fn uuid_text(id: Uuid) -> (result: String)
    ensures
        result@ == text_of_uuid(id),
        result@.len() == 36,
        vstd::utf8::is_ascii_chars(result@),
{
    uuid::Uuid::from_u128(id).to_string()
}

/// How `base64` writes bytes in its URL-safe alphabet without padding.
pub uninterp spec fn base64_text(bytes: Seq<u8>) -> Seq<char>;

/// The `encode` of `base64::engine::general_purpose::URL_SAFE_NO_PAD`: the bytes in the
/// URL-safe alphabet without padding, four ASCII characters for three bytes. The result
/// is named by [`base64_text`].
#[verifier::external_body]
pub(crate) fn base64_encode(bytes: &Vec<u8>) -> (result: String)
    requires
        bytes@.len() < usize::MAX / 4,
    ensures
        result@ == base64_text(bytes@),
        result@.len() == (bytes@.len() * 4 + 2) / 3,
        vstd::utf8::is_ascii_chars(result@),
{
    base64::Engine::encode(&base64::engine::general_purpose::URL_SAFE_NO_PAD, bytes)
}

/// The `decode` of `base64::engine::general_purpose::URL_SAFE_NO_PAD`: the bytes that the
/// text is written from. The decoder takes neither padding nor unused bits that are set,
/// so a text is read if and only if it is what the encoder writes for some bytes, and
/// those are the bytes that are read.
#[verifier::external_body]
pub(crate) fn base64_decode(text: &str) -> (result: Option<Vec<u8>>)
    ensures
        match result {
            Some(bytes) => base64_text(bytes@) == text@,
            None => true,
        },
        forall|bytes: Seq<u8>| #[trigger]
            base64_text(bytes) == text@ ==> result is Some && result->0@ == bytes,
{
    base64::Engine::decode(&base64::engine::general_purpose::URL_SAFE_NO_PAD, text).ok()
}

/// Whether `chrono_tz::Tz` knows a time zone of this name.
pub uninterp spec fn zone_known(zone: Seq<char>) -> bool;

/// The `from_str` of `chrono_tz::Tz`: whether there is a time zone of this name. The
/// result is named by [`zone_known`].
#[verifier::external_body]
pub(crate) fn is_zone(zone: &str) -> (result: bool)
    ensures
        result == zone_known(zone@),
{
    zone.parse::<chrono_tz::Tz>().is_ok()
}

/// Whether the instant of these seconds and nanoseconds is on the calendar of `chrono`
/// and stays on it for a day before and after.
pub open spec fn on_zone_calendar(seconds: i64, nanos: u32) -> bool {
    -8_334_601_142_400 <= seconds <= 8_210_266_790_399 && nanos < 1_000_000_000
}

/// The year, month and day that it is in a time zone at an instant, as
/// `chrono::DateTime::date_naive` gives them.
pub uninterp spec fn zone_date(seconds: i64, nanos: u32, zone: Seq<char>) -> (i32, u32, u32);

/// `chrono::DateTime::date_naive` of an instant in a time zone of `chrono_tz`: the year,
/// the month and the day. The result is named by [`zone_date`]; it is a date of the
/// Gregorian calendar. At the ends of the calendar the local time may be off it, and the
/// function panics.
#[verifier::external_body]
pub(crate) fn date_in_zone(seconds: i64, nanos: u32, zone: &str) -> (result: (i32, u32, u32))
    requires
        zone_known(zone@),
        on_zone_calendar(seconds, nanos),
    ensures
        result == zone_date(seconds, nanos, zone@),
        1 <= result.1 <= 12,
        1 <= result.2 <= crate::time::days_in_month(result.0 as int, result.1 as int),
{
    let zone: chrono_tz::Tz = zone.parse().unwrap();
    let instant = chrono::DateTime::from_timestamp(seconds, nanos).unwrap();
    let date = instant.with_timezone(&zone).date_naive();
    (chrono::Datelike::year(&date), chrono::Datelike::month(&date), chrono::Datelike::day(&date))
}

/// The seconds by which a time zone is ahead of UTC at an instant, as the offset of a
/// `chrono::DateTime` gives them.
pub uninterp spec fn zone_offset(seconds: i64, nanos: u32, zone: Seq<char>) -> i32;

/// `chrono::DateTime::offset` of an instant in a time zone of `chrono_tz`: the seconds
/// by which local time is ahead of UTC. The result is named by [`zone_offset`].
#[verifier::external_body]
pub(crate) fn offset_in_zone(seconds: i64, nanos: u32, zone: &str) -> (result: i32)
    requires
        zone_known(zone@),
        on_zone_calendar(seconds, nanos),
    ensures
        result == zone_offset(seconds, nanos, zone@),
{
    let zone: chrono_tz::Tz = zone.parse().unwrap();
    let instant = chrono::DateTime::from_timestamp(seconds, nanos).unwrap();
    chrono::Offset::fix(instant.with_timezone(&zone).offset()).local_minus_utc()
}

} // verus!
