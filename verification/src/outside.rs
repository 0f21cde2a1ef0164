//! The calls into other crates, and into parts of the standard library of
//! which nothing is known otherwise, and what is taken on trust of each.
//!
//! Everything else in this library is proved. What stands here is believed as
//! it is written, so each item says which outside function it makes a claim
//! about, and what the claim is.
use base64::Engine;
use reqwest::Error as HttpFailure;
use rusqlite::Error as SqlFailure;
use serde_json::Error as JsonFailure;
use sha2::Digest;
use vstd::prelude::*;

verus! {

/// `reqwest::Error`, carried and rendered, never looked into.
#[verifier::external_type_specification]
#[verifier::external_body]
pub struct ExHttpFailure(HttpFailure);

/// `rusqlite::Error`, carried and rendered, never looked into.
#[verifier::external_type_specification]
#[verifier::external_body]
pub struct ExSqlFailure(SqlFailure);

/// `serde_json::Error`, carried and rendered, never looked into.
#[verifier::external_type_specification]
#[verifier::external_body]
pub struct ExJsonFailure(JsonFailure);

/// `serde_json::Value`, carried through and never looked into.
#[verifier::external_type_specification]
#[verifier::external_body]
pub struct ExJsonValue(serde_json::Value);

/// `serde_json::Value::clone`: the copy is the value that was copied.
pub assume_specification[ <serde_json::Value as Clone>::clone ](
    value: &serde_json::Value,
) -> (copy: serde_json::Value)
    ensures
        copy == *value,
;

/// The words in which an HTTP failure renders itself once its URL has been
/// taken out of it.
pub uninterp spec fn http_failure_text(source: HttpFailure) -> Seq<char>;

/// `reqwest::Error::without_url`, then its `Display`: the failure in words,
/// rendered after the URL was stripped from it. The words are named by the
/// error that is handed over.
#[verifier::external_body]
pub(crate) fn url_free_text(source: HttpFailure) -> (text: String)
    ensures
        text@ == http_failure_text(source),
{
    source.without_url().to_string()
}

/// The words in which a database failure renders itself.
pub uninterp spec fn sql_failure_text(source: SqlFailure) -> Seq<char>;

/// `rusqlite::Error`'s `Display`: the failure in words, which are named by the
/// error that is handed over.
#[verifier::external_body]
pub(crate) fn sql_error_text(source: SqlFailure) -> (text: String)
    ensures
        text@ == sql_failure_text(source),
{
    source.to_string()
}

/// The words in which a JSON failure renders itself.
pub uninterp spec fn json_failure_text(source: JsonFailure) -> Seq<char>;

/// `serde_json::Error`'s `Display`: the failure in words, which are named by
/// the error that is handed over.
#[verifier::external_body]
pub(crate) fn json_error_text(source: JsonFailure) -> (text: String)
    ensures
        text@ == json_failure_text(source),
{
    source.to_string()
}

/// What `serde_json::from_str` makes of a text: the value it holds, or the
/// words in which the parser refuses it.
pub uninterp spec fn json_decoded(text: Seq<char>) -> Result<serde_json::Value, Seq<char>>;

/// `serde_json::from_str`: reads a text as one JSON value. The result depends
/// on the text alone; a refusal is handed back in the parser's own words.
#[verifier::external_body]
pub(crate) fn decode_json(text: &str) -> (r: Result<serde_json::Value, String>)
    ensures
        match r {
            Ok(value) => json_decoded(text@) == Ok::<serde_json::Value, Seq<char>>(value),
            Err(detail) => json_decoded(text@) == Err::<serde_json::Value, Seq<char>>(detail@),
        },
{
    serde_json::from_str(text).map_err(|error: serde_json::Error| error.to_string())
}

/// Whether a text is a random UUID in its hyphenated lower-case form: 36
/// characters, hyphens after the 8th, 12th, 16th and 20th digit, the version
/// digit 4.
pub open spec fn uuid_text(s: Seq<char>) -> bool {
    &&& s.len() == 36
    &&& s[14] == '4'
    &&& forall|i: int|
        0 <= i < 36 ==> if i == 8 || i == 13 || i == 18 || i == 23 {
            #[trigger] s[i] == '-'
        } else {
            '0' <= s[i] <= '9' || 'a' <= s[i] <= 'f'
        }
}

/// `uuid::Uuid::new_v4` and its `Display`: a fresh random identifier. Which
/// one is left to chance; its form is not.
#[verifier::external_body]
pub(crate) fn fresh_uuid() -> (text: String)
    ensures
        uuid_text(text@),
{
    uuid::Uuid::new_v4().to_string()
}

/// `str::trim`: the slice with leading and trailing white space removed, white
/// space being the characters with the Unicode `White_Space` property.
pub assume_specification[ str::trim ](s: &str) -> (r: &str)
    ensures
        r@ == crate::text::trimmed(s@),
;

/// `String::push`: appends one character to the end of the string.
pub assume_specification[ String::push ](s: &mut String, c: char)
    ensures
        final(s)@ == old(s)@.push(c),
;

/// `String::push_str`: appends a slice to the end of the string.
pub assume_specification[ String::push_str ](s: &mut String, tail: &str)
    ensures
        final(s)@ == old(s)@ + tail@,
;

/// The SHA-256 digest of these bytes.
pub uninterp spec fn sha256_of(data: Seq<u8>) -> Seq<u8>;

/// `sha2::Sha256::digest`: the SHA-256 digest of the bytes, 32 bytes that
/// depend on them alone.
#[verifier::external_body]
pub(crate) fn sha256(data: &[u8]) -> (digest: Vec<u8>)
    ensures
        digest@ == sha256_of(data@),
        digest@.len() == 32,
{
    sha2::Sha256::digest(data).to_vec()
}

/// The URL-safe base64 form of these bytes, without padding.
pub uninterp spec fn base64_url_of(data: Seq<u8>) -> Seq<char>;

/// Whether a character belongs to the URL-safe base64 alphabet.
pub open spec fn url_safe(c: char) -> bool {
    'A' <= c <= 'Z' || 'a' <= c <= 'z' || '0' <= c <= '9' || c == '-' || c == '_'
}

/// `base64::Engine::encode` on `URL_SAFE_NO_PAD`: the URL-safe base64 form of
/// the bytes, which depends on them alone, has no padding and holds characters
/// of that alphabet only.
#[verifier::external_body]
pub(crate) fn base64_url(data: &[u8]) -> (text: String)
    ensures
        text@ == base64_url_of(data@),
        forall|i: int| 0 <= i < text@.len() ==> url_safe(#[trigger] text@[i]),
{
    base64::engine::general_purpose::URL_SAFE_NO_PAD.encode(data)
}

/// `std::time::SystemTime`, a reading of the machine's clock.
#[verifier::external_type_specification]
#[verifier::external_body]
pub struct ExSystemTime(std::time::SystemTime);

/// `std::time::SystemTimeError`, what a clock that ran backwards is answered.
#[verifier::external_type_specification]
#[verifier::external_body]
pub struct ExSystemTimeError(std::time::SystemTimeError);

/// `std::time::SystemTime::now`: whatever the clock says. Nothing is claimed
/// of it.
pub assume_specification[ std::time::SystemTime::now ]() -> std::time::SystemTime;

/// `std::time::SystemTime::duration_since`: how long after `earlier` the
/// reading is, or an error where it is not after it. Nothing is claimed of
/// either.
pub assume_specification[ std::time::SystemTime::duration_since ](
    reading: &std::time::SystemTime,
    earlier: std::time::SystemTime,
) -> Result<std::time::Duration, std::time::SystemTimeError>;

/// `std::time::Duration::as_millis`: the duration in whole milliseconds.
/// Nothing is claimed of the number.
pub assume_specification[ std::time::Duration::as_millis ](d: &std::time::Duration) -> u128;

/// `std::time::UNIX_EPOCH`, as a reading.
#[verifier::external_body]
pub(crate) fn unix_epoch() -> (epoch: std::time::SystemTime)
{
    std::time::UNIX_EPOCH
}

} // verus!
