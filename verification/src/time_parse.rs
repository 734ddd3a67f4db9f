//! Time parser: converts a feed-provided timestamp string into a normalized
//! instant (seconds since the Unix epoch, UTC), substituting a caller-supplied
//! current instant when the string is absent or unparseable.

use vstd::prelude::*;

verus! {

/// The instant, in whole seconds since the Unix epoch, that the RFC 2822 date
/// grammar assigns to a string, or `None` when the string does not parse
/// under that grammar.
pub uninterp spec fn rfc2822_timestamp(s: Seq<char>) -> Option<i64>;

/// The view of an optional borrowed string.
pub open spec fn view_of_opt_str(raw: Option<&str>) -> Option<Seq<char>> {
    match raw {
        Option::Some(s) => Option::Some(s@),
        Option::None => Option::None,
    }
}

/// The instant a feed-supplied timestamp normalizes to: the parsed RFC 2822
/// instant, or `now` when the string is absent or fails to parse.
pub open spec fn spec_parse_time(raw: Option<Seq<char>>, now: i64) -> i64 {
    match raw {
        Option::Some(s) => match rfc2822_timestamp(s) {
            Option::Some(t) => t,
            Option::None => now,
        },
        Option::None => now,
    }
}

/// Relies on `chrono::DateTime::parse_from_rfc2822` and
/// `chrono::DateTime::timestamp`: the parsed UTC instant is a function of the
/// string alone.
#[verifier::external_body]
fn parse_rfc2822(s: &str) -> (r: Option<i64>)
    ensures
        r == rfc2822_timestamp(s@),
{
    match chrono::DateTime::parse_from_rfc2822(s) {
        Ok(d) => Some(d.timestamp()),
        Err(_) => None,
    }
}

/// Relies on `chrono::Utc::now` for the current wall-clock instant; nothing
/// is assumed about the value it returns.
#[verifier::external_body]
pub fn current_timestamp() -> i64 {
    chrono::Utc::now().timestamp()
}

/// Converts a feed-provided timestamp string into a normalized instant.
/// A string that is absent, or that does not parse under the RFC 2822
/// grammar, yields `now`; parse failures are absorbed, never surfaced.
pub fn parse_time(raw: Option<&str>, now: i64) -> (r: i64)
    ensures
        r == spec_parse_time(view_of_opt_str(raw), now),
{
    match raw {
        Some(s) => match parse_rfc2822(s) {
            Some(t) => t,
            None => now,
        },
        None => now,
    }
}

} // verus!
