//! The clock and calendar rendering, through the chrono and chrono-tz
//! crates.

use vstd::prelude::*;

verus! {

/// What `str::parse::<chrono_tz::Tz>` accepts: whether the string names
/// a timezone of the IANA database.
pub uninterp spec fn is_valid_tz(s: Seq<char>) -> bool;

/// The rendering of the timestamp `ts` in the timezone named `tz`: the
/// calendar date and wall-clock time followed by the zone name.  An
/// unknown `tz` renders in UTC; a `ts` outside chrono's calendar range
/// renders empty.  The result depends on the two arguments alone.
pub uninterp spec fn zone_rendered(ts: i64, tz: Seq<char>) -> Seq<char>;

/// Relies on chrono's `Utc::now` for the seconds since the Unix epoch.
/// Nothing is promised of the value; it panics only where the system
/// clock stands before the epoch.
#[verifier::external_body]
pub(crate) fn now_seconds() -> i64 {
    chrono::Utc::now().timestamp()
}

/// Relies on chrono-tz's `FromStr for Tz`: a lookup of the name in the
/// built-in IANA table, depending on the string alone.
#[verifier::external_body]
pub(crate) fn tz_valid(s: &str) -> (b: bool)
    ensures
        b == is_valid_tz(s@),
{
    s.parse::<chrono_tz::Tz>().is_ok()
}

/// Relies on chrono's `DateTime::from_timestamp` and `Display` and on
/// chrono-tz's `FromStr for Tz`; all three depend on their arguments
/// alone.
#[verifier::external_body]
pub(crate) fn format_in_zone(ts: i64, tz: &str) -> (r: String)
    ensures
        r@ == zone_rendered(ts, tz@),
{
    let zone: chrono_tz::Tz = tz.parse().unwrap_or(chrono_tz::Tz::UTC);
    match chrono::DateTime::from_timestamp(ts, 0) {
        Some(d) => d.with_timezone(&zone).to_string(),
        None => String::new(),
    }
}

} // verus!
