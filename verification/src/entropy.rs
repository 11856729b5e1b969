//! Readings of the clock and of random sources, and date formatting.
use vstd::prelude::*;
use rand::RngCore as _;
use rand::SeedableRng as _;

verus! {

/// `rand::thread_rng().fill_bytes`: 16 fresh random bytes.
#[verifier::external_body]
pub fn random_salt() -> (salt: Vec<u8>)
    ensures
        salt@.len() == 16,
{
    let mut salt = [0u8; 16];
    rand::thread_rng().fill_bytes(&mut salt);
    salt.to_vec()
}

/// `chrono::Utc::now().timestamp_millis()`: the current time, in milliseconds
/// since the Unix epoch; `Utc::now` does not return a time before the epoch.
#[verifier::external_body]
pub fn utc_now_millis() -> (millis: i64)
    ensures
        millis >= 0,
{
    chrono::Utc::now().timestamp_millis()
}

/// `chrono::Utc::now().to_rfc3339()`: the current time as RFC 3339 text, at
/// least `YYYY-MM-DDTHH:MM:SS` and ending in the UTC offset `+00:00`. Which
/// instant it writes rests on the clock, so nothing more is said of it.
#[verifier::external_body]
pub fn utc_now_rfc3339() -> (text: String)
    ensures
        text@.len() >= 25,
        text@.subrange(text@.len() - 6, text@.len() as int) == "+00:00"@,
{
    chrono::Utc::now().to_rfc3339()
}

/// A lower-case hexadecimal digit.
pub open spec fn is_lower_hex(c: char) -> bool {
    ('0' <= c && c <= '9') || ('a' <= c && c <= 'f')
}

/// Hyphenated lower-case text of a version 4 UUID: 8-4-4-4-12 hex digits,
/// the version digit `4` and a variant digit of `8`, `9`, `a` or `b`.
pub open spec fn uuid_v4_text(t: Seq<char>) -> bool {
    &&& t.len() == 36
    &&& forall|i: int|
        0 <= i < 36 ==> if i == 8 || i == 13 || i == 18 || i == 23 {
            t[i] == '-'
        } else {
            is_lower_hex(#[trigger] t[i])
        }
    &&& t[14] == '4'
    &&& (t[19] == '8' || t[19] == '9' || t[19] == 'a' || t[19] == 'b')
}

/// `uuid::Uuid::new_v4()`, written with `to_string`: a fresh random UUID in
/// hyphenated lower-case hex; which UUID rests on chance.
#[verifier::external_body]
pub fn new_uuid_v4() -> (text: String)
    ensures
        uuid_v4_text(text@),
{
    uuid::Uuid::new_v4().to_string()
}

/// The date pattern of `validFrom` and `validUntil`: UTC to the millisecond.
pub open spec fn millis_date_pattern() -> Seq<char> {
    "%Y-%m-%dT%H:%M:%S.%3fZ"@
}

/// The text `DateTime::format` writes for the instant `millis` ms after the
/// epoch with the pattern, or `None` where chrono has no such instant.
pub uninterp spec fn spec_format_utc_millis(millis: int, pattern: Seq<char>) -> Option<Seq<char>>;

/// `chrono::DateTime::from_timestamp_millis`, then `format(pattern)`, written
/// out. chrono writes the year with at most a sign and six digits, and the
/// rest of the pattern in twenty characters, so the text is short.
#[verifier::external_body]
pub fn format_utc_millis(millis: i64, pattern: &str) -> (text: Option<String>)
    requires
        pattern@ == millis_date_pattern(),
    ensures
        text matches Some(t) ==> spec_format_utc_millis(millis as int, pattern@) == Some(t@),
        text is None ==> spec_format_utc_millis(millis as int, pattern@) is None,
        text matches Some(t) ==> t@.len() <= 32,
{
    chrono::DateTime::from_timestamp_millis(millis).map(|t| t.format(pattern).to_string())
}

/// The first `count` numbers that `next_u32` draws from a `StdRng` seeded with `seed`.
pub uninterp spec fn spec_seeded_u32s(seed: u64, count: nat) -> Seq<u32>;

/// `rand::rngs::StdRng::seed_from_u64(seed)`, then `next_u32` `count` times.
#[verifier::external_body]
pub fn seeded_u32s(seed: u64, count: usize) -> (draws: Vec<u32>)
    ensures
        draws@ == spec_seeded_u32s(seed, count as nat),
        draws@.len() == count,
{
    let mut rng = rand::rngs::StdRng::seed_from_u64(seed);
    let mut draws = Vec::with_capacity(count);
    for _ in 0..count {
        draws.push(rng.next_u32());
    }
    draws
}

} // verus!
