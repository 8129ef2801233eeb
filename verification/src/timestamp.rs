//! Instants in time as the bot reads and writes them.
//!
//! An instant is held as chrono holds a `DateTime<Utc>`: seconds since the Unix
//! epoch and the nanoseconds past that second (more than 999,999,999 only within
//! a leap second). Parsing and formatting are chrono's; the library calls it.
use vstd::prelude::*;

verus! {

/// An instant: `DateTime::<Utc>::timestamp()` and `timestamp_subsec_nanos()`.
#[derive(Clone, Copy, Debug, PartialEq, Eq, Structural)]
pub struct Timestamp {
    pub secs: i64,
    pub nanos: u32,
}

/// `a` is strictly earlier than `b`, as chrono orders two `DateTime<Utc>`.
pub open spec fn is_earlier(a: Timestamp, b: Timestamp) -> bool {
    a.secs < b.secs || (a.secs == b.secs && a.nanos < b.nanos)
}

/// Whether `a` comes strictly before `b`.
pub fn earlier(a: Timestamp, b: Timestamp) -> (r: bool)
    ensures
        r == is_earlier(a, b),
{
    a.secs < b.secs || (a.secs == b.secs && a.nanos < b.nanos)
}

/// The format of end dates shown to users, in Hawaii time.
pub open spec fn hst_format() -> Seq<char> {
    "%B %d, %Y %I:%M %p HST"@
}

/// The format of the `end_date_min` query parameter, in UTC.
pub open spec fn utc_query_format() -> Seq<char> {
    "%Y-%m-%dT%H:%M:%SZ"@
}

/// The strftime formats this library hands to chrono; each is made of
/// specifiers that chrono documents, so formatting with them cannot fail.
pub open spec fn is_library_format(fmt: Seq<char>) -> bool {
    fmt == hst_format() || fmt == utc_query_format()
}

/// What `chrono::DateTime::parse_from_rfc3339` yields for a text, as an instant.
pub uninterp spec fn spec_parse_rfc3339(s: Seq<char>) -> Option<Timestamp>;

/// What `str::parse::<chrono::DateTime<chrono::Utc>>` (chrono's relaxed RFC 3339
/// reading) yields for a text, as an instant.
pub uninterp spec fn spec_parse_utc(s: Seq<char>) -> Option<Timestamp>;

/// The first second chrono can hold: January 1 of the year -262143, 00:00:00 UTC.
pub open spec fn min_instant_secs() -> int {
    -8334601228800
}

/// The last second chrono can hold: December 31 of the year 262142, 23:59:59 UTC.
pub open spec fn max_instant_secs() -> int {
    8210266876799
}

/// Whether `chrono::DateTime::from_timestamp(secs, nanos)` accepts the pair: the
/// second lies in chrono's range of dates, and the nanoseconds are below two
/// seconds, reaching past one second only in the last second of a minute (a
/// leap second).
pub open spec fn spec_chrono_accepts(secs: i64, nanos: u32) -> bool {
    &&& min_instant_secs() <= secs <= max_instant_secs()
    &&& nanos < 2_000_000_000
    &&& (nanos < 1_000_000_000 || (secs as int) % 60 == 59)
}

/// The time zone in which end dates are shown: Hawaii, which keeps no
/// daylight saving time.
pub open spec fn hawaii_zone() -> Seq<char> {
    "Pacific/Honolulu"@
}

/// The IANA zone names this library hands to chrono-tz; each is one of the
/// zones chrono-tz compiles in, so reading the name cannot fail.
pub open spec fn is_library_zone(zone: Seq<char>) -> bool {
    zone == hawaii_zone()
}

/// The text chrono writes for an instant, seen in the named chrono-tz zone, with
/// the given strftime format.
pub uninterp spec fn spec_format_in_zone(secs: i64, nanos: u32, zone: Seq<char>, fmt: Seq<char>) -> Seq<char>;

/// The text chrono writes for an instant in UTC with the given strftime format.
pub uninterp spec fn spec_format_in_utc(secs: i64, nanos: u32, fmt: Seq<char>) -> Seq<char>;

/// Whether `TimeDelta::try_hours(hours)` gives a duration: `3600 * hours`
/// seconds is at most `i64::MAX` milliseconds either way.
pub open spec fn hours_delta_fits(hours: i64) -> bool {
    -9223372036854775 <= 3600 * hours <= 9223372036854775
}

/// The instant `hours` hours after `(secs, nanos)`, as chrono's
/// `checked_add_signed` computes it: the seconds move by `3600 * hours`. From
/// within a leap second a move forward lands in the same position of the next
/// ordinary second, a move backward one second later, and no move stays put.
pub open spec fn hours_later(secs: i64, nanos: u32, hours: i64) -> (int, int) {
    if nanos < 1_000_000_000 || hours == 0 {
        (secs + 3600 * hours, nanos as int)
    } else if hours > 0 {
        (secs + 3600 * hours, nanos - 1_000_000_000)
    } else {
        (secs + 1 + 3600 * hours, nanos - 1_000_000_000)
    }
}

/// Whether chrono can add the given number of hours to an instant: the instant
/// is one chrono accepts, `TimeDelta::try_hours(hours)` is `Some`, and the sum
/// stays in chrono's range of dates.
pub open spec fn spec_hours_fit(secs: i64, nanos: u32, hours: i64) -> bool {
    &&& spec_chrono_accepts(secs, nanos)
    &&& hours_delta_fits(hours)
    &&& min_instant_secs() <= hours_later(secs, nanos, hours).0 <= max_instant_secs()
}

/// Calls `chrono::DateTime::parse_from_rfc3339` and keeps the instant.
/// Trusted: the result is the named result of that call; a parsed instant is one
/// that `DateTime::from_timestamp` gives back (chrono documents the round trip).
#[verifier::external_body]
fn chrono_parse_rfc3339(s: &str) -> (r: Option<Timestamp>)
    ensures
        r == spec_parse_rfc3339(s@),
        r matches Some(t) ==> spec_chrono_accepts(t.secs, t.nanos),
{
    match chrono::DateTime::parse_from_rfc3339(s) {
        Ok(d) => Some(Timestamp { secs: d.timestamp(), nanos: d.timestamp_subsec_nanos() }),
        Err(_) => None,
    }
}

/// Calls `str::parse::<chrono::DateTime<chrono::Utc>>` (chrono's `FromStr`) and
/// keeps the instant. Trusted as `chrono_parse_rfc3339` is; besides, the relaxed
/// reading accepts every text the strict RFC 3339 reading accepts (its separators,
/// paddings and offsets are among the relaxed ones) and gives the same instant.
#[verifier::external_body]
fn chrono_parse_utc(s: &str) -> (r: Option<Timestamp>)
    ensures
        r == spec_parse_utc(s@),
        r matches Some(t) ==> spec_chrono_accepts(t.secs, t.nanos),
        spec_parse_rfc3339(s@) is Some ==> r == spec_parse_rfc3339(s@),
{
    match s.parse::<chrono::DateTime<chrono::Utc>>() {
        Ok(d) => Some(Timestamp { secs: d.timestamp(), nanos: d.timestamp_subsec_nanos() }),
        Err(_) => None,
    }
}

/// Calls `chrono::DateTime::from_timestamp`, reads the zone name as a
/// `chrono_tz::Tz`, then `with_timezone` and `format(fmt).to_string()`.
/// Trusted: `None` exactly when chrono does not accept the instant (the zone
/// names admitted are ones chrono-tz reads), else the named text.
#[verifier::external_body]
fn chrono_format_in_zone(t: Timestamp, zone: &str, fmt: &str) -> (r: Option<String>)
    requires
        is_library_zone(zone@),
        is_library_format(fmt@),
    ensures
        r is Some <==> spec_chrono_accepts(t.secs, t.nanos),
        r matches Some(text) ==> text@ == spec_format_in_zone(t.secs, t.nanos, zone@, fmt@),
{
    match (chrono::DateTime::from_timestamp(t.secs, t.nanos), zone.parse::<chrono_tz::Tz>()) {
        (Some(d), Ok(tz)) => Some(d.with_timezone(&tz).format(fmt).to_string()),
        _ => None,
    }
}

/// Calls `chrono::DateTime::from_timestamp`, then `format(fmt).to_string()` in UTC.
/// Trusted: `None` exactly when chrono does not accept the instant, else the named text.
#[verifier::external_body]
fn chrono_format_in_utc(t: Timestamp, fmt: &str) -> (r: Option<String>)
    requires
        is_library_format(fmt@),
    ensures
        r is Some <==> spec_chrono_accepts(t.secs, t.nanos),
        r matches Some(text) ==> text@ == spec_format_in_utc(t.secs, t.nanos, fmt@),
{
    match chrono::DateTime::from_timestamp(t.secs, t.nanos) {
        Some(d) => Some(d.format(fmt).to_string()),
        None => None,
    }
}

/// Calls `chrono::DateTime::from_timestamp`, `chrono::TimeDelta::try_hours` and
/// `checked_add_signed`. Trusted: `Some` exactly when `spec_hours_fit` holds, and
/// then the instant is the one `hours_later` gives.
#[verifier::external_body]
fn chrono_add_hours(t: Timestamp, hours: i64) -> (r: Option<Timestamp>)
    ensures
        r is Some <==> spec_hours_fit(t.secs, t.nanos, hours),
        r matches Some(u) ==> (u.secs as int, u.nanos as int) == hours_later(t.secs, t.nanos, hours),
{
    match chrono::DateTime::from_timestamp(t.secs, t.nanos) {
        Some(d) => match chrono::TimeDelta::try_hours(hours) {
            Some(h) => match d.checked_add_signed(h) {
                Some(u) => Some(Timestamp { secs: u.timestamp(), nanos: u.timestamp_subsec_nanos() }),
                None => None,
            },
            None => None,
        },
        None => None,
    }
}

/// Reads an RFC 3339 date-time, as `DateTime::parse_from_rfc3339` does.
pub fn parse_rfc3339(s: &str) -> (r: Option<Timestamp>)
    ensures
        r == spec_parse_rfc3339(s@),
        r matches Some(t) ==> spec_chrono_accepts(t.secs, t.nanos),
{
    chrono_parse_rfc3339(s)
}

/// The Hawaii-time text that `utc_to_hst` gives for a parsed instant.
pub open spec fn hst_text(t: Timestamp) -> Seq<char> {
    spec_format_in_zone(t.secs, t.nanos, hawaii_zone(), hst_format())
}

/// Converts a UTC date-time text to the Hawaii-time text shown to users,
/// e.g. "February 23, 2026 08:00 AM HST".
pub fn utc_to_hst(utc_str: &str) -> (r: String)
    requires
        spec_parse_utc(utc_str@) is Some,
    ensures
        r@ == hst_text(spec_parse_utc(utc_str@)->0),
{
    let t = match chrono_parse_utc(utc_str) {
        Some(t) => t,
        None => {
            proof {
                assert(false);
            }
            Timestamp { secs: 0, nanos: 0 }
        },
    };
    match chrono_format_in_zone(t, "Pacific/Honolulu", "%B %d, %Y %I:%M %p HST") {
        Some(text) => text,
        None => {
            proof {
                assert(false);
            }
            String::new()
        },
    }
}

/// `utc_to_hst` for any text: `None` where the text is no date-time chrono reads
/// (where `utc_to_hst` may not be called). Every RFC 3339 text is read, as the
/// same instant.
pub fn try_utc_to_hst(utc_str: &str) -> (r: Option<String>)
    ensures
        r is Some <==> spec_parse_utc(utc_str@) is Some,
        spec_parse_rfc3339(utc_str@) matches Some(t) ==> r is Some && r->0@ == hst_text(t),
        r matches Some(text) ==> text@ == hst_text(spec_parse_utc(utc_str@)->0),
{
    match chrono_parse_utc(utc_str) {
        Some(_) => Some(utc_to_hst(utc_str)),
        None => None,
    }
}

/// The query window: the current instant, the instant `hours` later, and the
/// current instant written for the `end_date_min` query parameter.
pub fn now_and_window(now: Timestamp, hours: i64) -> (r: (Timestamp, Timestamp, String))
    requires
        spec_hours_fit(now.secs, now.nanos, hours),
    ensures
        r.0 == now,
        (r.1.secs as int, r.1.nanos as int) == hours_later(now.secs, now.nanos, hours),
        spec_chrono_accepts(r.1.secs, r.1.nanos),
        r.2@ == spec_format_in_utc(now.secs, now.nanos, utc_query_format()),
{
    let later = match chrono_add_hours(now, hours) {
        Some(u) => u,
        None => {
            proof {
                assert(false);
            }
            now
        },
    };
    let now_str = match chrono_format_in_utc(now, "%Y-%m-%dT%H:%M:%SZ") {
        Some(text) => text,
        None => {
            proof {
                assert(false);
            }
            String::new()
        },
    };
    (now, later, now_str)
}

/// `now_and_window` for any instant and length: `None` where chrono cannot add
/// the hours (where `now_and_window` may not be called).
pub fn try_now_and_window(now: Timestamp, hours: i64) -> (r: Option<(Timestamp, Timestamp, String)>)
    ensures
        r is Some <==> spec_hours_fit(now.secs, now.nanos, hours),
        r matches Some(w) ==> {
            &&& w.0 == now
            &&& (w.1.secs as int, w.1.nanos as int) == hours_later(now.secs, now.nanos, hours)
            &&& spec_chrono_accepts(w.1.secs, w.1.nanos)
            &&& w.2@ == spec_format_in_utc(now.secs, now.nanos, utc_query_format())
        },
{
    match chrono_add_hours(now, hours) {
        Some(_) => Some(now_and_window(now, hours)),
        None => None,
    }
}

} // verus!
