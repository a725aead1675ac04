//! Timestamps of manifests: an instant with the offset it was written in.

use vstd::prelude::*;
use crate::text::{from_chars, is_digit, char_is_digit, to_chars};

verus! {

/// The instant and the offset that an RFC 3339 text denotes, as `chrono`
/// reads it: seconds since the epoch, nanoseconds within the second, and
/// the offset from UTC in seconds. `None` where the text is not accepted.
pub uninterp spec fn rfc3339_instant(text: Seq<char>) -> Option<(i64, u32, i32)>;

/// A point in time, with the offset from UTC that it was written in.
#[derive(Debug, Clone, Copy, PartialEq, Eq, Hash, Structural)]
pub struct Date {
    /// Seconds since 1970-01-01T00:00:00Z.
    pub seconds: i64,
    /// Nanoseconds since the last whole second.
    pub nanos: u32,
    /// The offset from UTC, in seconds, that the text carried.
    pub offset: i32,
}

/// `chrono::DateTime::parse_from_rfc3339`, with the value taken apart by
/// `timestamp`, `timestamp_subsec_nanos` and `offset().local_minus_utc()`.
/// What is read depends on the text alone.
#[verifier::external_body]
fn parse_rfc3339(text: &str) -> (parsed: Option<Date>)
    ensures
        parsed is Some <==> rfc3339_instant(text@) is Some,
        parsed is Some ==> rfc3339_instant(text@) == Some(
            (parsed->0.seconds, parsed->0.nanos, parsed->0.offset),
        ),
{
    match chrono::DateTime::parse_from_rfc3339(text) {
        Ok(time) => Some(
            Date {
                seconds: time.timestamp(),
                nanos: time.timestamp_subsec_nanos(),
                offset: time.offset().local_minus_utc(),
            },
        ),
        Err(_) => None,
    }
}

/// Whether `text` ends in an offset written without its colon: a sign and
/// four digits.
pub open spec fn lacks_offset_colon(text: Seq<char>) -> bool {
    let n = text.len() as int;
    &&& n >= 5
    &&& (text[n - 5] == '+' || text[n - 5] == '-')
    &&& is_digit(text[n - 4])
    &&& is_digit(text[n - 3])
    &&& is_digit(text[n - 2])
    &&& is_digit(text[n - 1])
}

/// The text with the colon of its offset put in where it is missing.
pub open spec fn normalized(text: Seq<char>) -> Seq<char> {
    if lacks_offset_colon(text) {
        text.take(text.len() - 2) + seq![':'] + text.skip(text.len() - 2)
    } else {
        text
    }
}

/// Puts the colon into an offset that is written without one, as in
/// `+0000`; any other text is returned as it is.
pub fn normalize(text: &str) -> (out: String)
    ensures
        out@ == normalized(text@),
{
    let chars = to_chars(text);
    let n = chars.len();
    if n >= 5 && (chars[n - 5] == '+' || chars[n - 5] == '-') && char_is_digit(chars[n - 4])
        && char_is_digit(chars[n - 3]) && char_is_digit(chars[n - 2]) && char_is_digit(
        chars[n - 1],
    ) {
        let mut out: Vec<char> = Vec::new();
        let mut i: usize = 0;
        while i < n - 2
            invariant
                n == chars.len(),
                n >= 5,
                i <= n - 2,
                out@ == chars@.take(i as int),
            decreases n - 2 - i,
        {
            out.push(chars[i]);
            assert(chars@.take(i + 1) =~= chars@.take(i as int).push(chars@[i as int]));
            i += 1;
        }
        out.push(':');
        out.push(chars[n - 2]);
        out.push(chars[n - 1]);
        assert(out@ =~= normalized(text@));
        from_chars(out.as_slice())
    } else {
        text.to_owned()
    }
}

impl Date {
    /// Reads an RFC 3339 timestamp; an offset written without its colon is
    /// accepted.
    pub fn parse(text: &str) -> (parsed: Option<Date>)
        ensures
            parsed is Some <==> rfc3339_instant(normalized(text@)) is Some,
            parsed is Some ==> rfc3339_instant(normalized(text@)) == Some(
                (parsed->0.seconds, parsed->0.nanos, parsed->0.offset),
            ),
    {
        let text = normalize(text);
        parse_rfc3339(text.as_str())
    }

    /// Whether `self` is later than `other`.
    pub open spec fn later_than(self, other: Date) -> bool {
        self.seconds > other.seconds || (self.seconds == other.seconds && self.nanos > other.nanos)
    }

    /// Whether this instant is later than `other`, whatever their offsets.
    pub fn is_after(&self, other: &Date) -> (later: bool)
        ensures
            later == self.later_than(*other),
    {
        self.seconds > other.seconds || (self.seconds == other.seconds && self.nanos > other.nanos)
    }
}

} // verus!
