use vstd::prelude::*;

verus! {

/// Seconds in one UTC day.
pub const SECS_PER_DAY: i64 = 86400;

/// Seconds in one week.
pub const SECS_PER_WEEK: i64 = 604800;

/// The earliest instant the date library can represent, as seconds since the
/// Unix epoch: midnight on the first day of year -9999, by the library's own
/// day reckoning.
pub const MIN_TIMESTAMP: i64 = -377705116800;

/// The latest instant the date library can represent, as seconds since the
/// Unix epoch: the last second of year 9999.
pub const MAX_TIMESTAMP: i64 = 253402300799;

/// Midnight of the Sunday one day before the earliest representable instant:
/// the anchor from which whole weeks are counted.
pub const SUNDAY_ANCHOR: i64 = -377705203200;

/// The day-of-week (0 = Sunday .. 6 = Saturday) of the UTC day containing the
/// instant `ts` seconds after the Unix epoch. Whole days are counted from
/// `SUNDAY_ANCHOR`, a Sunday midnight.
pub open spec fn weekday_of(ts: int) -> int {
    ((ts - SUNDAY_ANCHOR) / (SECS_PER_DAY as int)) % 7
}

/// Day-of-week from Sunday of the UTC day containing `ts`.
pub fn weekday_from_sunday(ts: i64) -> (wd: i64)
    requires
        MIN_TIMESTAMP <= ts <= MAX_TIMESTAMP,
    ensures
        wd == weekday_of(ts as int),
        0 <= wd < 7,
{
    let shifted: u64 = (ts - SUNDAY_ANCHOR) as u64;
    let wd: u64 = (shifted / 86400) % 7;
    wd as i64
}

/// The UTC calendar date of the instant `ts` seconds after the Unix epoch,
/// written `YYYY-MM-DD` with zero-padded month and day. The date is a function
/// of the timestamp alone; only the date library can compute it.
pub uninterp spec fn civil_date_string(ts: int) -> Seq<char>;

/// What an RFC 3339 timestamp text denotes: the seconds since the Unix epoch
/// of the instant it describes, or nothing when the text is not a valid
/// RFC 3339 timestamp. A function of the text alone.
pub uninterp spec fn rfc3339_secs(s: Seq<char>) -> Option<int>;

/// What an ISO 8601 calendar-date text (such as `2024-01-07`) denotes: the
/// seconds since the Unix epoch of that date's midnight UTC, or nothing when
/// the text is not a valid date. A function of the text alone.
pub uninterp spec fn iso_date_secs(s: Seq<char>) -> Option<int>;

/// Relies on time::OffsetDateTime::from_unix_timestamp, which succeeds exactly
/// for seconds within the representable range (year -9999 through year 9999),
/// and time::OffsetDateTime::unix_timestamp, which returns the same seconds
/// value back.
#[verifier::external_body]
pub fn check_unix_timestamp(ts: i64) -> (r: Option<i64>)
    ensures
        r is Some <==> MIN_TIMESTAMP <= ts <= MAX_TIMESTAMP,
        r matches Some(t) ==> t == ts,
{
    match time::OffsetDateTime::from_unix_timestamp(ts) {
        Ok(dt) => Some(dt.unix_timestamp()),
        Err(_) => None,
    }
}

/// Relies on time::OffsetDateTime::parse with the RFC 3339 description and on
/// time::OffsetDateTime::unix_timestamp: the outcome is a function of the text
/// alone, named `rfc3339_secs`. Every parsed instant lies within the
/// representable date range, widened on each side by the largest UTC offset a
/// timestamp can carry (under two days).
#[verifier::external_body]
pub fn parse_rfc3339_secs(s: &str) -> (r: Option<i64>)
    ensures
        r is Some <==> rfc3339_secs(s@) is Some,
        r matches Some(t) ==> rfc3339_secs(s@) == Some(t as int)
            && MIN_TIMESTAMP - 2 * SECS_PER_DAY <= t <= MAX_TIMESTAMP + 2 * SECS_PER_DAY,
{
    match time::OffsetDateTime::parse(s, &time::format_description::well_known::Rfc3339) {
        Ok(dt) => Some(dt.unix_timestamp()),
        Err(_) => None,
    }
}

/// Relies on time::Date::parse with the ISO 8601 date description, on
/// time::Date::midnight and time::PlainDateTime::assume_utc, and on
/// time::OffsetDateTime::unix_timestamp: the outcome is a function of the text
/// alone, named `iso_date_secs`. A parsed date's midnight lies within the
/// representable range.
#[verifier::external_body]
pub fn parse_iso_date_secs(s: &str) -> (r: Option<i64>)
    ensures
        r is Some <==> iso_date_secs(s@) is Some,
        r matches Some(t) ==> iso_date_secs(s@) == Some(t as int)
            && MIN_TIMESTAMP <= t <= MAX_TIMESTAMP,
{
    match time::Date::parse(s, &time::format_description::well_known::Iso8601::DATE) {
        Ok(d) => Some(d.midnight().assume_utc().unix_timestamp()),
        Err(_) => None,
    }
}

/// Relies on time::OffsetDateTime::from_unix_timestamp and on its year, month
/// and day accessors: the UTC calendar date of an instant is a function of the
/// timestamp alone, named `civil_date_string`.
#[verifier::external_body]
pub fn format_civil_date(ts: i64) -> (r: String)
    requires
        MIN_TIMESTAMP <= ts <= MAX_TIMESTAMP,
    ensures
        r@ == civil_date_string(ts as int),
{
    match time::OffsetDateTime::from_unix_timestamp(ts) {
        Ok(dt) => format!("{}-{:02}-{:02}", dt.year(), dt.month() as u8, dt.day()),
        Err(_) => String::new(),
    }
}

} // verus!
