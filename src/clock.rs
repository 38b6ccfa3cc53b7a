//! The current time, as the timestamp text stored in notes.

use vstd::prelude::*;

verus! {

pub open spec fn is_digit(c: char) -> bool {
    '0' <= c <= '9'
}

/// The form of `strftime("%F %T")`: a year of at least one character, then
/// `-MM-DD HH:MM:SS`. With a four-digit year it is 19 characters long.
pub open spec fn is_timestamp(s: Seq<char>) -> bool {
    &&& s.len() >= 16
    &&& {
        let b = s.len() - 15;
        &&& s[b] == '-'
        &&& is_digit(s[b + 1]) && is_digit(s[b + 2])
        &&& s[b + 3] == '-'
        &&& is_digit(s[b + 4]) && is_digit(s[b + 5])
        &&& s[b + 6] == ' '
        &&& is_digit(s[b + 7]) && is_digit(s[b + 8])
        &&& s[b + 9] == ':'
        &&& is_digit(s[b + 10]) && is_digit(s[b + 11])
        &&& s[b + 12] == ':'
        &&& is_digit(s[b + 13]) && is_digit(s[b + 14])
    }
}

/// Relies on `time::now_utc` and `time::strftime` with the format `"%F %T"`:
/// the current UTC time as `YYYY-MM-DD HH:MM:SS`. `strftime` accepts both
/// directives and `now_utc` gives a valid weekday and month, so formatting
/// does not fail. The year is written unpadded (`{}` of the year); month,
/// day, hour, minute and second as two digits each (`{:02}`). The value
/// depends on the clock, so nothing more is stated.
#[verifier::external_body]
pub(crate) fn utc_timestamp() -> (r: Result<String, String>)
    ensures
        r is Ok,
        r is Ok ==> is_timestamp(r->Ok_0@),
{
    match time::strftime("%F %T", &time::now_utc()) {
        Ok(s) => Ok(s),
        Err(e) => Err(e.to_string()),
    }
}

} // verus!
