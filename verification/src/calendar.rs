//! The proleptic Gregorian calendar and UNIX time, as plain arithmetic.
use vstd::prelude::*;
use crate::text::digit_char;

verus! {

/// The earliest year a chrono date can hold.
pub open spec fn min_year() -> int {
    -262143
}

/// The latest year a chrono date can hold.
pub open spec fn max_year() -> int {
    262142
}

/// Gregorian leap year rule (proleptic, year 0 is a leap year).
pub open spec fn is_leap_year(y: int) -> bool {
    y % 4 == 0 && (y % 100 != 0 || y % 400 == 0)
}

/// The number of days in month `m` of year `y`.
pub open spec fn days_in_month(y: int, m: int) -> int {
    if m == 2 {
        if is_leap_year(y) { 29 } else { 28 }
    } else if m == 4 || m == 6 || m == 9 || m == 11 {
        30
    } else {
        31
    }
}

/// `y`-`m`-`d` is a calendar date within the years that chrono can represent.
pub open spec fn valid_date(y: int, m: int, d: int) -> bool {
    &&& min_year() <= y <= max_year()
    &&& 1 <= m <= 12
    &&& 1 <= d <= days_in_month(y, m)
}

/// The number of days from 1970-01-01 to `y`-`m`-`d` (negative before it).
pub open spec fn days_from_civil(y: int, m: int, d: int) -> int {
    let y1 = if m <= 2 { y - 1 } else { y };
    let era = y1 / 400;
    let yoe = y1 - era * 400;
    let mp = if m > 2 { m - 3 } else { m + 9 };
    let doy = (153 * mp + 2) / 5 + d - 1;
    let doe = yoe * 365 + yoe / 4 - yoe / 100 + doy;
    era * 146097 + doe - 719468
}

/// UNIX time (non-leap seconds since 1970-01-01T00:00:00Z) of a UTC date and time.
pub open spec fn unix_seconds(y: int, m: int, d: int, h: int, mi: int, s: int) -> int {
    days_from_civil(y, m, d) * 86400 + h * 3600 + mi * 60 + s
}

/// The first second of the earliest date chrono can hold.
pub open spec fn min_unix() -> int {
    -8334601228800
}

/// The last second of the latest date chrono can hold.
pub open spec fn max_unix() -> int {
    8210266876799
}

/// `t` is the UNIX time of an instant that a chrono `DateTime<Utc>` can hold.
pub open spec fn in_range(t: int) -> bool {
    min_unix() <= t <= max_unix()
}

/// The bounds of `in_range` are the first second of `min_year()` and the last
/// second of `max_year()`.
pub proof fn lemma_range_bounds()
    ensures
        min_unix() == unix_seconds(min_year(), 1, 1, 0, 0, 0),
        max_unix() == unix_seconds(max_year(), 12, 31, 23, 59, 59),
{
}

/// The calendar date (year, month, day) of day number `days` since 1970-01-01.
pub open spec fn civil_from_days(days: int) -> (int, int, int) {
    let z = days + 719468;
    let era = z / 146097;
    let doe = z - era * 146097;
    let yoe = (doe - doe / 1460 + doe / 36524 - doe / 146096) / 365;
    let doy = doe - (365 * yoe + yoe / 4 - yoe / 100);
    let mp = (5 * doy + 2) / 153;
    let d = doy - (153 * mp + 2) / 5 + 1;
    let m = if mp < 10 { mp + 3 } else { mp - 9 };
    let y = yoe + era * 400;
    (if m <= 2 { y + 1 } else { y }, m, d)
}

/// The UTC year of UNIX time `t`.
pub open spec fn year_of(t: int) -> int {
    civil_from_days(t / 86400).0
}

/// `n` written with exactly `width` decimal digits (the low ones, zero padded).
pub open spec fn fixed_digits(n: int, width: nat) -> Seq<char>
    decreases width,
{
    if width == 0 {
        Seq::empty()
    } else {
        fixed_digits(n / 10, (width - 1) as nat).push(digit_char((n % 10) as nat))
    }
}

/// `YYYYMMDDhhmmss` of UNIX time `t`, for years 0 to 9999.
pub open spec fn wb_ts_text(t: int) -> Seq<char> {
    let (y, m, d) = civil_from_days(t / 86400);
    let sod = t % 86400;
    fixed_digits(y, 4) + fixed_digits(m, 2) + fixed_digits(d, 2) + fixed_digits(sod / 3600, 2)
        + fixed_digits(sod % 3600 / 60, 2) + fixed_digits(sod % 60, 2)
}

} // verus!
