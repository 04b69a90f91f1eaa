//! The calls into other crates, and what the library relies on of each.

use crate::time::Timestamp;
use crate::workspace::Uuid;
use vstd::prelude::*;
use vstd::utf8::{decode_utf8, valid_utf8};

verus! {

/// The RFC 9562 namespace for names that are URLs.
pub const NAMESPACE_URL: Uuid = 0x6ba7b811_9dad_11d1_80b4_00c04fd430c8;

/// The name-based UUID of `name` in `namespace`: `uuid::Uuid::new_v5`.
pub uninterp spec fn uuid_v5(namespace: Uuid, name: Seq<u8>) -> Uuid;

/// `uuid::Uuid::new_v5`: the SHA-1 based UUID of a name in a namespace, which
/// depends on nothing but the two.
#[verifier::external_body]
pub(crate) fn new_v5(namespace: Uuid, name: &[u8]) -> (res: Uuid)
    ensures
        res == uuid_v5(namespace, name@),
{
    uuid::Uuid::new_v5(&uuid::Uuid::from_u128(namespace), name).as_u128()
}

/// The version and variant bits of a random UUID.
pub open spec fn is_random_uuid(id: Uuid) -> bool {
    id & 0xF000_C000_0000_0000_0000 == 0x4000_8000_0000_0000_0000
}

/// `uuid::Uuid::new_v4`: a random UUID. Nothing is said of it but its version
/// and variant bits; in particular not that two calls differ.
#[verifier::external_body]
pub(crate) fn new_v4() -> (res: Uuid)
    ensures
        is_random_uuid(res),
{
    uuid::Uuid::new_v4().as_u128()
}

/// A lowercase hexadecimal digit.
pub open spec fn hex_digit(value: int) -> char {
    if value < 10 {
        ('0' as u32 + value) as char
    } else {
        ('a' as u32 + (value - 10)) as char
    }
}

/// The four bits of a UUID that its `index`th hexadecimal digit stands for.
pub open spec fn uuid_nibble(id: Uuid, index: int) -> int {
    (id >> (((31 - index) * 4) as u128)) as int % 16
}

/// The hyphenated text of a UUID: groups of 8, 4, 4, 4 and 12 digits.
pub open spec fn uuid_text(id: Uuid) -> Seq<char> {
    Seq::new(
        36,
        |i: int|
            if i == 8 || i == 13 || i == 18 || i == 23 {
                '-'
            } else {
                let before: int = if i > 23 {
                    4
                } else if i > 18 {
                    3
                } else if i > 13 {
                    2
                } else if i > 8 {
                    1
                } else {
                    0
                };
                hex_digit(uuid_nibble(id, i - before))
            },
    )
}

/// `uuid::Uuid`'s `Display`: the hyphenated lowercase form.
#[verifier::external_body]
pub(crate) fn uuid_string(id: Uuid) -> (res: String)
    ensures
        res@ == uuid_text(id),
{
    uuid::Uuid::from_u128(id).to_string()
}

/// A character as it stands in a JSON string.
pub open spec fn escaped_char(c: char) -> Seq<char> {
    let code = c as int;
    if c == '"' || c == '\\' {
        seq!['\\', c]
    } else if code == 8 {
        seq!['\\', 'b']
    } else if code == 9 {
        seq!['\\', 't']
    } else if code == 10 {
        seq!['\\', 'n']
    } else if code == 12 {
        seq!['\\', 'f']
    } else if code == 13 {
        seq!['\\', 'r']
    } else if code < 32 {
        seq!['\\', 'u', '0', '0', hex_digit(code / 16), hex_digit(code % 16)]
    } else {
        seq![c]
    }
}

/// A text as it stands in a JSON string, without the quotes.
pub open spec fn escaped_text(text: Seq<char>) -> Seq<char>
    decreases text.len(),
{
    if text.len() == 0 {
        Seq::empty()
    } else {
        escaped_text(text.drop_last()) + escaped_char(text.last())
    }
}

/// A text as a JSON string.
pub open spec fn quoted_text(text: Seq<char>) -> Seq<char> {
    seq!['"'] + escaped_text(text) + seq!['"']
}

/// `serde_json::to_string` of a text: a JSON string in which the quote, the
/// backslash and the control characters below 32 are escaped, the latter by a
/// letter where JSON has one, and all else stands as it is. Writing a text never
/// fails.
#[verifier::external_body]
pub(crate) fn json_string(text: &str) -> (res: String)
    ensures
        res@ == quoted_text(text@),
{
    serde_json::to_string(text).expect("a text can always be written")
}

/// `chrono::Utc::now`: the current instant by the machine's clock, at or after
/// the Unix epoch and without a leap second. Which instant it is, is not said.
/// Where the clock stands before the epoch the call panics.
#[verifier::external_body]
pub(crate) fn utc_now() -> (res: Timestamp)
    ensures
        res.secs >= 0,
        res.nanos < 1_000_000_000,
{
    let now = chrono::Utc::now();
    Timestamp { secs: now.timestamp(), nanos: now.timestamp_subsec_nanos() }
}

/// Whether chrono represents an instant: one from the year -262143 through the
/// year 262142, with a second or more of nanoseconds only in the last second of a
/// minute, which is then a leap second.
pub open spec fn representable(instant: Timestamp) -> bool {
    &&& -8_334_601_228_800 <= instant.secs <= 8_210_266_876_799
    &&& instant.nanos < 2_000_000_000
    &&& instant.nanos >= 1_000_000_000 ==> instant.secs % 60 == 59
}

/// The second that a leap second adds between two instants. Chrono counts it where
/// the leap second comes first by the time of day.
pub open spec fn leap_between(later: Timestamp, earlier: Timestamp) -> int {
    let until = later.secs as int % 86_400;
    let since = earlier.secs as int % 86_400;
    if until > since && earlier.nanos >= 1_000_000_000 {
        1
    } else if until < since && later.nanos >= 1_000_000_000 {
        -1
    } else {
        0
    }
}

/// The whole seconds from `earlier` to `later`, rounded toward zero.
pub open spec fn whole_seconds(later: Timestamp, earlier: Timestamp) -> int {
    let nanos = (later.secs - earlier.secs + leap_between(later, earlier)) * 1_000_000_000 + (
    later.nanos - earlier.nanos);
    if nanos >= 0 {
        nanos / 1_000_000_000
    } else {
        -((-nanos) / 1_000_000_000)
    }
}

/// The difference of two `chrono::DateTime<Utc>` in `num_seconds`, each instant
/// given to `DateTime::from_timestamp` by its seconds and nanoseconds since the
/// epoch. There is one exactly where chrono represents both.
#[verifier::external_body]
pub(crate) fn seconds_between(later: Timestamp, earlier: Timestamp) -> (res: Option<i64>)
    ensures
        match res {
            Some(seconds) => representable(later) && representable(earlier) && seconds
                == whole_seconds(later, earlier),
            None => !representable(later) || !representable(earlier),
        },
{
    let later = chrono::DateTime::from_timestamp(later.secs, later.nanos)?;
    let earlier = chrono::DateTime::from_timestamp(earlier.secs, earlier.nanos)?;
    Some((later - earlier).num_seconds())
}

/// What `String::from_utf8_lossy` makes of bytes.
pub uninterp spec fn utf8_lossy(bytes: Seq<u8>) -> Seq<char>;

/// `String::from_utf8_lossy`: the decoded text where the bytes are UTF-8, and
/// otherwise a text with replacement characters that depends on the bytes alone.
#[verifier::external_body]
pub(crate) fn from_utf8_lossy(bytes: &[u8]) -> (res: String)
    ensures
        res@ == utf8_lossy(bytes@),
        valid_utf8(bytes@) ==> res@ == decode_utf8(bytes@),
{
    String::from_utf8_lossy(bytes).into_owned()
}

/// A compiled regular expression.
#[verifier::external_type_specification]
#[verifier::external_body]
pub struct ExRegex(regex::Regex);

/// Why a pattern was refused.
#[verifier::external_type_specification]
#[verifier::external_body]
pub struct ExRegexError(regex::Error);

/// The pattern that a regular expression was compiled from.
pub uninterp spec fn regex_source(regex: regex::Regex) -> Seq<char>;

/// Whether a pattern matches somewhere in a text: `regex::Regex::is_match` of
/// the compiled pattern.
pub uninterp spec fn pattern_matches(pattern: Seq<char>, text: Seq<char>) -> bool;

/// `regex::Regex::new`: the regular expression that the pattern stands for.
/// Which patterns compile is not said: the size limit is measured in the
/// machine's memory.
#[verifier::external_body]
pub(crate) fn compile(pattern: &str) -> (res: Result<regex::Regex, regex::Error>)
    ensures
        res is Ok ==> regex_source(res->Ok_0) == pattern@,
{
    regex::Regex::new(pattern)
}

/// `regex::Regex::is_match`: whether the pattern matches somewhere in `text`.
#[verifier::external_body]
pub(crate) fn is_match(regex: &regex::Regex, text: &str) -> (res: bool)
    ensures
        res == pattern_matches(regex_source(*regex), text@),
{
    regex.is_match(text)
}

} // verus!
