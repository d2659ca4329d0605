use chrono::DateTime;
use vstd::prelude::*;

verus! {

pub open spec fn is_ascii_digit(c: char) -> bool {
    '0' <= c <= '9'
}

pub open spec fn all_digits(s: Seq<char>) -> bool {
    forall|i: int| 0 <= i < s.len() ==> is_ascii_digit(#[trigger] s[i])
}

/// A year: four digits, or a sign followed by at least four digits.
pub open spec fn is_year_text(s: Seq<char>) -> bool {
    ||| s.len() == 4 && all_digits(s)
    ||| s.len() >= 5 && (s[0] == '+' || s[0] == '-') && all_digits(s.drop_first())
}

/// The rest of date and time after the year: `-MM-DDTHH:MM:SS`.
pub open spec fn is_date_time_tail(s: Seq<char>) -> bool {
    &&& s.len() == 15
    &&& s[0] == '-' && s[3] == '-' && s[6] == 'T' && s[9] == ':' && s[12] == ':'
    &&& forall|i: int|
        0 <= i < 15 && i != 0 && i != 3 && i != 6 && i != 9 && i != 12 ==> is_ascii_digit(
            #[trigger] s[i],
        )
}

/// Fractional seconds: none, or a dot and three, six or nine digits.
pub open spec fn is_fraction_text(s: Seq<char>) -> bool {
    ||| s.len() == 0
    ||| (s.len() == 4 || s.len() == 7 || s.len() == 10) && s[0] == '.' && all_digits(s.drop_first())
}

/// An RFC 3339 date and time at offset zero, written with a `+00:00` suffix.
pub open spec fn is_rfc3339_utc(s: Seq<char>) -> bool {
    exists|y: int|
        {
            &&& 4 <= y && y + 21 <= s.len()
            &&& #[trigger] is_year_text(s.subrange(0, y))
            &&& is_date_time_tail(s.subrange(y, y + 15))
            &&& is_fraction_text(s.subrange(y + 15, s.len() - 6))
            &&& s.subrange(s.len() - 6, s.len() as int) == "+00:00"@
        }
}

/// The last second of year 9999, plus one: up to here a year has four digits.
pub const YEAR_10000_SECS: i64 = 253_402_300_800;

/// Relies on chrono's `DateTime::from_timestamp` and `DateTime::to_rfc3339`:
/// the first accepts every instant from the epoch to the end of year 9999 with
/// fewer than 10^9 nanoseconds; the second writes the four-digit year,
/// `-MM-DDTHH:MM:SS`, fractional seconds of zero, three, six or nine digits,
/// and the offset `+00:00`.
#[verifier::external_body]
fn rfc3339_at(secs: i64, nanos: u32) -> (r: Option<String>)
    ensures
        0 <= secs < YEAR_10000_SECS && nanos < 1_000_000_000 ==> r is Some,
        match r {
            Some(s) => is_rfc3339_utc(s@),
            None => true,
        },
{
    match DateTime::from_timestamp(secs, nanos) {
        Some(t) => Some(t.to_rfc3339()),
        None => None,
    }
}

/// One row of the message store, before the store assigns its id.
pub struct MessageRecord {
    pub message: String,
    pub timestamp: String,
}

impl MessageRecord {
    /// The row recording `message` as received `secs` seconds and `nanos`
    /// nanoseconds after the Unix epoch; `None` where the instant has no
    /// RFC 3339 form.
    pub fn at(message: &str, secs: i64, nanos: u32) -> (r: Option<MessageRecord>)
        ensures
            0 <= secs < YEAR_10000_SECS && nanos < 1_000_000_000 ==> r is Some,
            match r {
                Some(rec) => rec.message@ == message@ && is_rfc3339_utc(rec.timestamp@),
                None => true,
            },
    {
        match rfc3339_at(secs, nanos) {
            Some(timestamp) => Some(MessageRecord { message: message.to_owned(), timestamp }),
            None => None,
        }
    }
}

} // verus!
