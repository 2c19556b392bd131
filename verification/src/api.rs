//! The answers of the web interface, and the claims of the tokens it hands
//! out.

use crate::device::{simple_form, DeviceId};
use crate::format::{decimal, decimal_string};
use vstd::prelude::*;
use vstd::string::StringExecFns;

verus! {

/// How long a token is valid, in seconds.
pub const TOKEN_LIFETIME: i64 = 900;

/// What a token says of its holder.
#[derive(Clone, Debug)]
pub struct JWTClaims {
    pub iss: String,
    pub sub: String,
    pub groups: String,
    pub exp: u64,
}

/// The characters of the canonical text of an identifier.
pub open spec fn simple_chars(value: u128) -> Seq<char> {
    Seq::new(32, |i: int| simple_form(value)[i] as char)
}

/// Formats an identifier through `uuid`'s `Simple` and its `Display`, which
/// writes the same thirty-two lower-case hexadecimal digits as
/// `encode_lower`.
#[verifier::external_body]
fn uuid_simple_string(value: u128) -> (text: String)
    ensures
        text@ == simple_chars(value),
{
    uuid::Uuid::from_u128(value).as_simple().to_string()
}

/// The identifier that `uuid` reads from a text in any of the spellings it
/// knows, or `None` where it reads none.
pub uninterp spec fn uuid_of_text(text: Seq<char>) -> Option<u128>;

/// Parses with `uuid`'s `Uuid::parse_str`, which takes the spellings
/// without dashes, with dashes, in braces and as a URN.
#[verifier::external_body]
fn uuid_parse_any(text: &str) -> (parsed: Option<u128>)
    ensures
        parsed == uuid_of_text(text@),
{
    match uuid::Uuid::parse_str(text) {
        Ok(id) => Some(id.as_u128()),
        Err(_) => None,
    }
}

/// The text of an identifier with dashes: the canonical digits in groups of
/// eight, four, four, four and twelve.
pub open spec fn hyphenated_chars(value: u128) -> Seq<char> {
    let digits = simple_chars(value);
    digits.subrange(0, 8) + seq!['-'] + digits.subrange(8, 12) + seq!['-'] + digits.subrange(
        12,
        16,
    ) + seq!['-'] + digits.subrange(16, 20) + seq!['-'] + digits.subrange(20, 32)
}

/// Formats an identifier through `uuid`'s `Hyphenated` and its `Display`,
/// which writes the lower-case digits with a dash behind the eighth, the
/// twelfth, the sixteenth and the twentieth.
#[verifier::external_body]
fn uuid_hyphenated_string(value: u128) -> (text: String)
    ensures
        text@ == hyphenated_chars(value),
{
    uuid::Uuid::from_u128(value).as_hyphenated().to_string()
}

/// What is answered to a question for a device: how its identifier reads
/// with dashes, or why the question names none.
pub open spec fn status_words(id: Seq<char>, parsed: Option<u128>) -> Result<Seq<char>, Seq<char>> {
    match parsed {
        Some(value) => Ok(
            "The ID provided: "@ + id + " can be seen like this: "@ + hyphenated_chars(value),
        ),
        None => Err("The provided ID: "@ + id + " cannot become a UUID."@),
    }
}

/// The characters of an answer or of a refusal.
pub open spec fn answer_view(answer: Result<String, String>) -> Result<Seq<char>, Seq<char>> {
    match answer {
        Ok(text) => Ok(text@),
        Err(text) => Err(text@),
    }
}

/// The answer to a question for a device whose identifier was read
/// already.
pub fn status_answer(id: &str, parsed: Option<DeviceId>) -> (answer: Result<String, String>)
    ensures
        answer_view(answer) == status_words(
            id@,
            match parsed {
                Some(device) => Some(device.value),
                None => None,
            },
        ),
{
    match parsed {
        Some(device) => {
            let mut text = String::from_str("The ID provided: ");
            text.append(id);
            text.append(" can be seen like this: ");
            let dashed = uuid_hyphenated_string(device.value);
            text.append(dashed.as_str());
            Ok(text)
        },
        None => {
            let mut text = String::from_str("The provided ID: ");
            text.append(id);
            text.append(" cannot become a UUID.");
            Err(text)
        },
    }
}

/// Reads an identifier in any spelling.
pub fn parse_any(text: &str) -> (parsed: Option<DeviceId>)
    ensures
        parsed is Some <==> uuid_of_text(text@) is Some,
        parsed is Some ==> parsed->0.value == uuid_of_text(text@)->0,
{
    match uuid_parse_any(text) {
        Some(value) => Some(DeviceId::from_u128(value)),
        None => None,
    }
}

/// The answer to a question for a sensor.
pub fn sensor_status(id: &str) -> (answer: Result<String, String>)
    ensures
        answer_view(answer) == status_words(id@, uuid_of_text(id@)),
{
    status_answer(id, parse_any(id))
}

/// The answer to a question for a controller.
pub fn controller_status(id: &str) -> (answer: Result<String, String>)
    ensures
        answer_view(answer) == status_words(id@, uuid_of_text(id@)),
{
    status_answer(id, parse_any(id))
}

/// The time at which a token runs out that is handed out at `now`, both in
/// seconds since 1970; `fallback` where that time lies before 1970.
pub open spec fn expiry(now: i64, fallback: u64) -> u64 {
    if now + TOKEN_LIFETIME >= 0 {
        (now + TOKEN_LIFETIME) as u64
    } else {
        fallback
    }
}

/// The time at which a token runs out that is handed out at `now`.
pub fn expires_at(now: i64, fallback: u64) -> (exp: u64)
    requires
        now + TOKEN_LIFETIME <= i64::MAX,
    ensures
        exp == expiry(now, fallback),
{
    let end: i64 = now + TOKEN_LIFETIME;
    if end >= 0 {
        end as u64
    } else {
        fallback
    }
}

impl JWTClaims {
    /// The claims that nobody was given: a placeholder subject, no group,
    /// and an end at `now`.
    pub fn default_at(now: u64) -> (claims: JWTClaims)
        ensures
            claims.iss@ == "Rusty Thermostat"@,
            claims.sub@ == "DebugSub"@,
            claims.groups@ == "NONE"@,
            claims.exp == now,
    {
        JWTClaims {
            iss: String::from_str("Rusty Thermostat"),
            sub: String::from_str("DebugSub"),
            groups: String::from_str("NONE"),
            exp: now,
        }
    }

    /// The claims of a holder in a group, valid for a quarter of an hour
    /// from `now`.
    pub fn for_group(subject: DeviceId, group: &str, now: i64, fallback: u64) -> (claims: JWTClaims)
        requires
            now + TOKEN_LIFETIME <= i64::MAX,
        ensures
            claims.iss@ == "Rusty Thermostat"@,
            claims.sub@ == simple_chars(subject.value),
            claims.groups@ == group@,
            claims.exp == expiry(now, fallback),
    {
        JWTClaims {
            iss: String::from_str("Rusty Thermostat"),
            sub: uuid_simple_string(subject.value),
            groups: String::from_str(group),
            exp: expires_at(now, fallback),
        }
    }

    /// The claims of a sensor that reports over the web.
    pub fn new_sensor(subject: DeviceId, now: i64, fallback: u64) -> (claims: JWTClaims)
        requires
            now + TOKEN_LIFETIME <= i64::MAX,
        ensures
            claims.iss@ == "Rusty Thermostat"@,
            claims.sub@ == simple_chars(subject.value),
            claims.groups@ == "WebSensor"@,
            claims.exp == expiry(now, fallback),
    {
        JWTClaims::for_group(subject, "WebSensor", now, fallback)
    }

    /// The claims of a collector.
    pub fn new_collector(subject: DeviceId, now: i64, fallback: u64) -> (claims: JWTClaims)
        requires
            now + TOKEN_LIFETIME <= i64::MAX,
        ensures
            claims.iss@ == "Rusty Thermostat"@,
            claims.sub@ == simple_chars(subject.value),
            claims.groups@ == "Collector"@,
            claims.exp == expiry(now, fallback),
    {
        JWTClaims::for_group(subject, "Collector", now, fallback)
    }

    /// The claims of a viewer.
    pub fn new_viewer(subject: DeviceId, now: i64, fallback: u64) -> (claims: JWTClaims)
        requires
            now + TOKEN_LIFETIME <= i64::MAX,
        ensures
            claims.iss@ == "Rusty Thermostat"@,
            claims.sub@ == simple_chars(subject.value),
            claims.groups@ == "ViewOnly"@,
            claims.exp == expiry(now, fallback),
    {
        JWTClaims::for_group(subject, "ViewOnly", now, fallback)
    }

    /// The claims of an administrator.
    pub fn new_admin(subject: DeviceId, now: i64, fallback: u64) -> (claims: JWTClaims)
        requires
            now + TOKEN_LIFETIME <= i64::MAX,
        ensures
            claims.iss@ == "Rusty Thermostat"@,
            claims.sub@ == simple_chars(subject.value),
            claims.groups@ == "Super"@,
            claims.exp == expiry(now, fallback),
    {
        JWTClaims::for_group(subject, "Super", now, fallback)
    }
}

/// The greeting of the server.
pub fn index() -> (greeting: &'static str)
    ensures
        greeting@ == "Hello, world!"@,
{
    "Hello, world!"
}

/// The greeting of the interface.
pub fn api_index() -> (greeting: &'static str)
    ensures
        greeting@ == "Hello, API!"@,
{
    "Hello, API!"
}

/// The answer to a question for the pollution.
pub fn pollution() -> (answer: &'static str)
    ensures
        answer@ == "Current pollution"@,
{
    "Current pollution"
}

/// The answer to a question for a zone.
pub fn zone_status(id: u32) -> (answer: Result<String, String>)
    ensures
        answer is Ok,
        answer->Ok_0@ == "Info for zone "@ + decimal(id as nat) + ":"@,
{
    let mut answer = String::from_str("Info for zone ");
    let number = decimal_string(id as u64);
    answer.append(number.as_str());
    answer.append(":");
    Ok(answer)
}

} // verus!
