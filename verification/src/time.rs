//! Instants read from RFC 3339 texts.

use vstd::prelude::*;

verus! {

/// A moment: seconds since the Unix epoch (UTC) and nanoseconds past that second
/// (1_000_000_000 and above during a leap second).
#[derive(Clone, Copy, PartialEq, Eq, Structural)]
pub struct Instant {
    pub secs: i64,
    pub nanos: u32,
}

/// The instant an RFC 3339 text denotes, when it is one, as
/// `chrono::DateTime::parse_from_rfc3339` reads it.
pub uninterp spec fn rfc3339_instant(text: Seq<char>) -> Option<Instant>;

/// Calls `chrono::DateTime::parse_from_rfc3339` and gives the instant as its
/// `timestamp()` and `timestamp_subsec_nanos()`. The result is named `rfc3339_instant`,
/// a function of the text alone; the grammar it accepts is not stated here.
#[verifier::external_body]
pub fn parse_rfc3339(text: &str) -> (r: Option<Instant>)
    ensures
        r == rfc3339_instant(text@),
{
    chrono::DateTime::parse_from_rfc3339(text).ok().map(
        |dt| Instant { secs: dt.timestamp(), nanos: dt.timestamp_subsec_nanos() },
    )
}

/// The RFC 3339 text (UTC, `+00:00`) of an instant as `chrono::DateTime::to_rfc3339`
/// writes it, when chrono can represent the instant.
pub uninterp spec fn rfc3339_utc(i: Instant) -> Option<Seq<char>>;

/// Calls `chrono::DateTime::<Utc>::from_timestamp` to build the instant and
/// `DateTime::to_rfc3339` to write it. The result is named `rfc3339_utc`, a function of
/// the instant alone; the format itself is not stated here.
#[verifier::external_body]
pub fn to_iso(i: Instant) -> (r: Option<String>)
    ensures
        match r {
            Some(t) => rfc3339_utc(i) == Some(t@),
            None => rfc3339_utc(i) is None,
        },
{
    chrono::DateTime::from_timestamp(i.secs, i.nanos).map(|dt| dt.to_rfc3339())
}

/// Whether `a` comes strictly before `b`: the order of `chrono::DateTime`, which
/// compares the moments and not their time zones.
pub open spec fn before(a: Instant, b: Instant) -> bool {
    a.secs < b.secs || (a.secs == b.secs && a.nanos < b.nanos)
}

/// Whether `a` comes strictly before `b`.
pub fn is_before(a: Instant, b: Instant) -> (r: bool)
    ensures
        r == before(a, b),
{
    a.secs < b.secs || (a.secs == b.secs && a.nanos < b.nanos)
}

/// The whole days from `then` to `now` as chrono counts them: `now - then` as a
/// `chrono::TimeDelta`, then `num_days`; none when chrono cannot represent one of the
/// instants.
pub uninterp spec fn chrono_days_between(then: Instant, now: Instant) -> Option<i64>;

/// Calls `chrono::DateTime::<Utc>::from_timestamp` for both instants, subtracts them
/// and calls `TimeDelta::num_days`. The result is named `chrono_days_between`, a function
/// of the two instants alone; chrono's day arithmetic (leap seconds included) is not
/// stated here.
#[verifier::external_body]
fn days_from(then: Instant, now: Instant) -> (r: Option<i64>)
    ensures
        r == chrono_days_between(then, now),
{
    match (
        chrono::DateTime::from_timestamp(then.secs, then.nanos),
        chrono::DateTime::from_timestamp(now.secs, now.nanos),
    ) {
        (Some(a), Some(b)) => Some((b - a).num_days()),
        _ => None,
    }
}

/// The whole days since the instant written in `iso`, at `now`; `None` when `iso` is
/// not an RFC 3339 text.
pub fn days_since(iso: &str, now: Instant) -> (r: Option<i64>)
    ensures
        r == match rfc3339_instant(iso@) {
            Some(then) => chrono_days_between(then, now),
            None => None,
        },
{
    match parse_rfc3339(iso) {
        Some(then) => days_from(then, now),
        None => None,
    }
}

} // verus!
