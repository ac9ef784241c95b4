//! Calendar dates of Unix timestamps.

use vstd::prelude::*;
use chrono::TimeZone;
use crate::text::decimal;

verus! {

/// The earliest timestamp (seconds from 1970-01-01 UTC) that chrono can
/// represent (its `DateTime::<Utc>::MIN_UTC`).
pub const MIN_TIMESTAMP: i64 = -8334601228800;

/// The latest timestamp that chrono can represent (its
/// `DateTime::<Utc>::MAX_UTC`, +262142-12-31 23:59:59).
pub const MAX_TIMESTAMP: i64 = 8210266876799;

/// The date format of transcript listings: year, month and day.
pub const DATE_FORMAT: &'static str = "%Y-%m-%d";

/// The proleptic Gregorian date `(year, month, day)` of the day that lies
/// `days` days after 1970-01-01 (negative: before it), year 0 being 1 BC.
pub open spec fn civil_from_days(days: int) -> (int, int, int) {
    let z = days + 719468;
    let era = z / 146097;
    let doe = z - era * 146097;
    let yoe = (doe - doe / 1460 + doe / 36524 - doe / 146096) / 365;
    let doy = doe - (365 * yoe + yoe / 4 - yoe / 100);
    let mp = (5 * doy + 2) / 153;
    let day = doy - (153 * mp + 2) / 5 + 1;
    let month = if mp < 10 {
        mp + 3
    } else {
        mp - 9
    };
    let year = yoe + era * 400 + if month <= 2 {
        1int
    } else {
        0int
    };
    (year, month, day)
}

/// The decimal text of `n` padded with leading zeros to `width` digits.
pub open spec fn zero_padded(n: nat, width: nat) -> Seq<char> {
    let d = decimal(n);
    if d.len() < width {
        Seq::new((width - d.len()) as nat, |i: int| '0') + d
    } else {
        d
    }
}

/// A year as `%Y` writes it: four digits for 0 to 9999, otherwise a sign
/// and at least four digits.
pub open spec fn year_text(year: int) -> Seq<char> {
    if 0 <= year <= 9999 {
        zero_padded(year as nat, 4)
    } else if year < 0 {
        seq!['-'] + zero_padded((-year) as nat, 4)
    } else {
        seq!['+'] + zero_padded(year as nat, 4)
    }
}

/// The `%Y-%m-%d` text of the UTC date of a Unix timestamp (seconds).
pub open spec fn date_text(timestamp: int) -> Seq<char> {
    let (y, m, d) = civil_from_days(timestamp / 86400);
    year_text(y) + seq!['-'] + zero_padded(m as nat, 2) + seq!['-'] + zero_padded(d as nat, 2)
}

/// Calls chrono's `Utc.timestamp_opt(timestamp, 0)` and formats the date-time
/// with `format` (here always `%Y-%m-%d`). Within chrono's range UTC gives a
/// single date-time, so the `unwrap` does not panic; the text is the
/// proleptic Gregorian date of the timestamp's day, the year as `%Y` pads
/// it, month and day with two digits.
#[verifier::external_body]
fn utc_format(timestamp: i64, format: &str) -> (r: String)
    requires
        MIN_TIMESTAMP <= timestamp <= MAX_TIMESTAMP,
        format@ == DATE_FORMAT@,
    ensures
        r@ == date_text(timestamp as int),
{
    chrono::Utc.timestamp_opt(timestamp, 0).unwrap().format(format).to_string()
}

/// The signed value of a `u64` reinterpreted as an `i64` (`as i64`).
pub open spec fn as_signed(ts: u64) -> int {
    if ts <= i64::MAX {
        ts as int
    } else {
        ts - 0x1_0000_0000_0000_0000
    }
}

/// A `u64` timestamp that, read as an `i64`, chrono can represent.
pub open spec fn timestamp_in_range(ts: u64) -> bool {
    MIN_TIMESTAMP <= as_signed(ts) <= MAX_TIMESTAMP
}

/// Whether `format_timestamp` accepts `ts`.
pub fn timestamp_is_representable(ts: u64) -> (b: bool)
    ensures
        b == timestamp_in_range(ts),
{
    ts <= MAX_TIMESTAMP as u64 || ts >= 18446735739108322816u64
}

/// The UTC date (`YYYY-MM-DD`) of a Unix timestamp, the `u64` read as an
/// `i64` as a cast does.
pub fn format_timestamp(timestamp: u64) -> (r: String)
    requires
        timestamp_in_range(timestamp),
    ensures
        r@ == date_text(as_signed(timestamp)),
{
    let signed: i64 = if timestamp <= i64::MAX as u64 {
        timestamp as i64
    } else {
        let back: u64 = u64::MAX - timestamp;
        -(back as i64) - 1
    };
    utc_format(signed, DATE_FORMAT)
}

} // verus!
