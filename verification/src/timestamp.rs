//! Instants of the Wayback Machine, written `YYYYMMDDhhmmss`.
use vstd::prelude::*;
use crate::calendar::{in_range, unix_seconds, valid_date, wb_ts_text, year_of};
use chrono::Datelike;
use chrono::TimeZone;
use crate::numbers::{all_digits, digits_value, is_four_digits, parse_i32, parse_i32_spec};
use crate::text::chars_of;

verus! {

#[verifier::external_type_specification]
#[verifier::external_body]
pub struct ExChronoParseError(chrono::ParseError);

/// The UNIX time that `NaiveDateTime::parse_from_str(s, "%Y%m%d%H%M%S")`
/// yields for `s`, read as UTC; `None` where it fails.
pub uninterp spec fn wb_ts_parse(s: Seq<char>) -> Option<i64>;

/// The date (year, month, day) that `NaiveDate::parse_from_str(s, "%Y%m%d")`
/// yields for `s`; `None` where it fails.
pub uninterp spec fn date_parse(s: Seq<char>) -> Option<(i32, u32, u32)>;

/// The text that chrono's `format("%Y%m%d%H%M%S")` writes for UNIX time `t`.
pub uninterp spec fn wb_ts_format(t: i64) -> Seq<char>;

/// The value of the digits `s[from..from + n]`.
pub open spec fn field(s: Seq<char>, from: int, n: int) -> int {
    digits_value(s.subrange(from, from + n))
}

/// `s` is a date as `YYYYMMDD`: eight ASCII digits naming a real date.
pub open spec fn canonical_date_text(s: Seq<char>) -> bool {
    &&& s.len() == 8
    &&& all_digits(s)
    &&& valid_date(field(s, 0, 4), field(s, 4, 2), field(s, 6, 2))
}

/// The UNIX time of the date and time that the fields of `s` spell.
pub open spec fn wb_text_seconds(s: Seq<char>) -> int {
    unix_seconds(field(s, 0, 4), field(s, 4, 2), field(s, 6, 2), field(s, 8, 2), field(s, 10, 2), field(s, 12, 2))
}

/// `s` is a Wayback timestamp as the archive writes one: fourteen ASCII
/// digits `YYYYMMDDhhmmss` naming a real date of the years 1000 to 9999 and a
/// time of day up to 23:59:59.
pub open spec fn canonical_wb_text(s: Seq<char>) -> bool {
    &&& s.len() == 14
    &&& all_digits(s)
    &&& 1000 <= field(s, 0, 4) <= 9999
    &&& valid_date(field(s, 0, 4), field(s, 4, 2), field(s, 6, 2))
    &&& field(s, 8, 2) <= 23
    &&& field(s, 10, 2) <= 59
    &&& field(s, 12, 2) <= 59
}

/// `NaiveDateTime::parse_from_str` with the Wayback pattern, then the UNIX time
/// of the parsed value as UTC (`and_utc().timestamp()`). Claims that the
/// result is the named one and, since every chrono `DateTime<Utc>` lies in
/// chrono's range, that it lies in `in_range`. For fourteen digits chrono
/// reads the fields four, two, two, two, two and two digits wide (`%Y` takes
/// at most four digits without a sign, the others at most two), so a
/// `canonical_wb_text` is read as the date and time it spells, and writing that
/// instant back with the same pattern, which pads each field with zeros to
/// that width, gives the text again.
#[verifier::external_body]
fn chrono_parse_datetime(s: &str) -> (res: Result<i64, chrono::ParseError>)
    ensures
        match res {
            Ok(t) => wb_ts_parse(s@) == Some(t) && in_range(t as int),
            Err(_) => wb_ts_parse(s@) is None,
        },
        canonical_wb_text(s@) ==> res is Ok,
        res matches Ok(t) ==> (canonical_wb_text(s@) ==> t as int == wb_text_seconds(s@) && wb_ts_format(t) == s@),
        s@.len() == 8 && all_digits(s@) ==> res is Err,
{
    match chrono::NaiveDateTime::parse_from_str(s, "%Y%m%d%H%M%S") {
        Ok(dt) => Ok(dt.and_utc().timestamp()),
        Err(e) => Err(e),
    }
}

/// `NaiveDate::parse_from_str(s, "%Y%m%d")`, the date read back as year,
/// month and day. Claims that the result is the named one and, since every
/// `NaiveDate` is a real date in chrono's range, that it is a `valid_date`.
/// For eight digits chrono reads the fields four, two and two digits wide, so
/// a `canonical_date_text` is read as the date it spells.
#[verifier::external_body]
fn chrono_parse_date(s: &str) -> (res: Result<(i32, u32, u32), chrono::ParseError>)
    ensures
        match res {
            Ok((y, m, d)) => date_parse(s@) == Some((y, m, d)) && valid_date(y as int, m as int, d as int),
            Err(_) => date_parse(s@) is None,
        },
        canonical_date_text(s@) ==> res is Ok,
        res matches Ok((y, m, d)) ==> (canonical_date_text(s@) ==> y == field(s@, 0, 4) && m == field(s@, 4, 2) && d == field(s@, 6, 2)),
{
    match chrono::NaiveDate::parse_from_str(s, "%Y%m%d") {
        Ok(d) => Ok((d.year(), d.month(), d.day())),
        Err(e) => Err(e),
    }
}

/// `NaiveDate::from_ymd_opt(y, m, d)`, which is `None` exactly for dates that
/// do not exist or lie outside years `min_year()..=max_year()`; a date it gives
/// is turned into the UNIX time of its last second, 23:59:59 UTC
/// (`and_hms_opt(23, 59, 59)`, which cannot fail, then `and_utc().timestamp()`,
/// the count of non-leap seconds since 1970-01-01T00:00:00Z).
#[verifier::external_body]
fn chrono_end_of_day(y: i32, m: u32, d: u32) -> (res: Option<i64>)
    ensures
        res == (if valid_date(y as int, m as int, d as int) {
            Some(unix_seconds(y as int, m as int, d as int, 23, 59, 59) as i64)
        } else {
            None::<i64>
        }),
        res matches Some(t) ==> in_range(t as int) && t as int == unix_seconds(y as int, m as int, d as int, 23, 59, 59),
{
    match chrono::NaiveDate::from_ymd_opt(y, m, d) {
        Some(date) => Some(date.and_hms_opt(23, 59, 59).unwrap().and_utc().timestamp()),
        None => None,
    }
}

/// `Utc.timestamp_opt(t, 0)`: `LocalResult::Single` exactly when `t` is the
/// UNIX time of a date chrono can hold (`DateTime::from_timestamp` checks the
/// day `t.div_euclid(86400)` against chrono's first and last date); the
/// instant read back (`timestamp()`) is `t` itself.
#[verifier::external_body]
fn chrono_timestamp_opt(t: i64) -> (res: Option<i64>)
    ensures
        res == (if in_range(t as int) { Some(t) } else { None::<i64> }),
{
    match chrono::Utc.timestamp_opt(t, 0) {
        chrono::LocalResult::Single(dt) => Some(dt.timestamp()),
        chrono::LocalResult::Ambiguous(_, _) => None,
        chrono::LocalResult::None => None,
    }
}

/// `format("%Y%m%d%H%M%S")` of the UTC instant at UNIX time `t`. chrono writes
/// a year from 0 to 9999 with four zero-padded digits, and month, day, hour,
/// minute and second with two each; for other years it writes a sign and at
/// least four digits, which is left to the name. For the years 1000 to 9999
/// the text is fourteen digits of whole seconds (never a leap second), which
/// `NaiveDateTime::parse_from_str` with the same pattern reads back as `t`.
#[verifier::external_body]
fn chrono_format_wb(t: i64) -> (res: String)
    requires
        in_range(t as int),
    ensures
        res@ == wb_ts_format(t),
        0 <= year_of(t as int) <= 9999 ==> res@ == wb_ts_text(t as int),
        1000 <= year_of(t as int) <= 9999 ==> wb_ts_parse(res@) == Some(t),
{
    chrono::DateTime::from_timestamp(t, 0).unwrap().format("%Y%m%d%H%M%S").to_string()
}

/// Why a text or a number is not a timestamp.
#[derive(Clone, Copy, Debug, PartialEq, Eq, Structural)]
pub enum TimestampError {
    /// The text does not follow the expected date pattern.
    Format,
    /// A year was expected but the text is not an `i32`.
    NotANumber,
    /// The year is outside the years that can be held.
    InvalidYear,
    /// Neither a timestamp, a date nor a year; or a UNIX time out of range.
    Invalid,
}

/// The UNIX time `YYYY / YYYYMMDD / YYYYMMDDhhmmss` text stands for: a full
/// Wayback timestamp as is, a date or a year at its last second (23:59:59 on
/// the date, on December 31 of the year), tried in that order. A year is
/// exactly four ASCII digits.
pub open spec fn parse_timestamp_spec(s: Seq<char>) -> Option<int> {
    match wb_ts_parse(s) {
        Some(t) => Some(t as int),
        None => match date_parse(s) {
            Some((y, m, d)) => Some(unix_seconds(y as int, m as int, d as int, 23, 59, 59)),
            None => if s.len() == 4 && all_digits(s) {
                match parse_i32_spec(s) {
                    Some(y) => if valid_date(y, 12, 31) {
                        Some(unix_seconds(y, 12, 31, 23, 59, 59))
                    } else {
                        None
                    },
                    None => None,
                }
            } else {
                None
            },
        },
    }
}

/// An instant, held as its UNIX time in seconds.
#[derive(Clone, Copy, Debug, PartialEq, Eq, PartialOrd, Ord, Hash)]
pub struct Timestamp {
    secs: i64,
}

impl View for Timestamp {
    type V = int;

    closed spec fn view(&self) -> int {
        self.secs as int
    }
}

impl Timestamp {
    #[verifier::type_invariant]
    closed spec fn inv(self) -> bool {
        in_range(self.secs as int)
    }

    /// The timestamp at UNIX time `t`.
    pub closed spec fn at(t: int) -> Timestamp {
        Timestamp { secs: t as i64 }
    }

    /// Convert 14-digit wayback machine timestamp to a `Timestamp`.
    pub fn from_wb_ts(s: &str) -> (res: Result<Timestamp, TimestampError>)
        ensures
            res is Ok <==> wb_ts_parse(s@) is Some,
            res matches Ok(ts) ==> wb_ts_parse(s@) == Some(ts@ as i64) && ts@ == wb_ts_parse(s@).unwrap() as int,
            res matches Err(e) ==> e == TimestampError::Format,
            canonical_wb_text(s@) ==> (res matches Ok(ts) && wb_ts_format(ts@ as i64) == s@
                && ts@ == wb_text_seconds(s@)),
            s@.len() == 8 && all_digits(s@) ==> res is Err,
    {
        match chrono_parse_datetime(s) {
            Ok(t) => Ok(Timestamp { secs: t }),
            Err(_) => Err(TimestampError::Format),
        }
    }

    /// The 14-digit wayback machine form of this timestamp.
    pub fn to_wb_ts(&self) -> (r: String)
        ensures
            r@ == wb_ts_format(self@ as i64),
            0 <= year_of(self@) <= 9999 ==> r@ == wb_ts_text(self@),
            1000 <= year_of(self@) <= 9999 ==> wb_ts_parse(r@) == Some(self@ as i64),
    {
        proof { use_type_invariant(self); }
        chrono_format_wb(self.secs)
    }

    /// December 31, 23:59:59 UTC of the year written in `s`.
    pub fn from_year(s: &str) -> (res: Result<Timestamp, TimestampError>)
        ensures
            parse_i32_spec(s@) is None ==> res == Err::<Timestamp, TimestampError>(TimestampError::NotANumber),
            parse_i32_spec(s@) matches Some(y) ==> {
                if valid_date(y, 12, 31) {
                    res matches Ok(ts) && ts@ == unix_seconds(y, 12, 31, 23, 59, 59)
                } else {
                    res == Err::<Timestamp, TimestampError>(TimestampError::InvalidYear)
                }
            },
    {
        let cs = chars_of(s);
        match parse_i32(&cs) {
            None => Err(TimestampError::NotANumber),
            Some(y) => match chrono_end_of_day(y, 12, 31) {
                Some(t) => Ok(Timestamp { secs: t }),
                None => Err(TimestampError::InvalidYear),
            },
        }
    }

    /// 23:59:59 UTC of the `YYYYMMDD` date written in `s`.
    pub fn from_date(s: &str) -> (res: Result<Timestamp, TimestampError>)
        ensures
            date_parse(s@) is None ==> res == Err::<Timestamp, TimestampError>(TimestampError::Format),
            date_parse(s@) matches Some((y, m, d)) ==>
                (res matches Ok(ts) && ts@ == unix_seconds(y as int, m as int, d as int, 23, 59, 59)),
            canonical_date_text(s@) ==> (res matches Ok(ts)
                && ts@ == unix_seconds(field(s@, 0, 4), field(s@, 4, 2), field(s@, 6, 2), 23, 59, 59)),
    {
        match chrono_parse_date(s) {
            Ok((y, m, d)) => match chrono_end_of_day(y, m, d) {
                Some(t) => Ok(Timestamp { secs: t }),
                None => Err(TimestampError::Format),
            },
            Err(_) => Err(TimestampError::Format),
        }
    }

    /// Parse YYYY / YYYYMMDD / YYYYMMDDhhmmss string.
    pub fn from_str(timestamp_str: &str) -> (res: Result<Timestamp, TimestampError>)
        ensures
            match parse_timestamp_spec(timestamp_str@) {
                Some(t) => res matches Ok(ts) && ts@ == t,
                None => res == Err::<Timestamp, TimestampError>(TimestampError::Invalid),
            },
            canonical_wb_text(timestamp_str@) ==> (res matches Ok(ts) && ts@ == wb_text_seconds(timestamp_str@)),
            canonical_date_text(timestamp_str@) ==> (res matches Ok(ts)
                && ts@ == unix_seconds(field(timestamp_str@, 0, 4), field(timestamp_str@, 4, 2), field(timestamp_str@, 6, 2), 23, 59, 59)),
    {
        if let Ok(ts) = Timestamp::from_wb_ts(timestamp_str) {
            Ok(ts)
        } else if let Ok(ts) = Timestamp::from_date(timestamp_str) {
            Ok(ts)
        } else if is_four_digits(&chars_of(timestamp_str)) {
            match Timestamp::from_year(timestamp_str) {
                Ok(ts) => Ok(ts),
                Err(_) => Err(TimestampError::Invalid),
            }
        } else {
            Err(TimestampError::Invalid)
        }
    }

    /// The UNIX time of this timestamp.
    pub fn unix_time(&self) -> (r: i64)
        ensures
            r as int == self@,
            in_range(r as int),
    {
        proof { use_type_invariant(self); }
        self.secs
    }

    /// The timestamp at UNIX time `ts`, if chrono can hold that instant.
    pub fn from_unix_time(ts: i64) -> (res: Result<Timestamp, TimestampError>)
        ensures
            in_range(ts as int) ==> (res matches Ok(t) && t@ == ts),
            in_range(ts as int) ==> res == Ok::<Timestamp, TimestampError>(Timestamp::at(ts as int)),
            !in_range(ts as int) ==> res == Err::<Timestamp, TimestampError>(TimestampError::Invalid),
    {
        match chrono_timestamp_opt(ts) {
            Some(t) => Ok(Timestamp { secs: t }),
            None => Err(TimestampError::Invalid),
        }
    }

    /// Whether this timestamp comes strictly before `other`.
    pub fn is_before(&self, other: &Timestamp) -> (r: bool)
        ensures
            r == (self@ < other@),
    {
        self.secs < other.secs
    }

    /// Reading a timestamp back from its own UNIX time gives that timestamp:
    /// `from_unix_time(t.unix_time())` is `Ok(t)` for every timestamp `t`.
    pub proof fn law_unix_time_round_trip(t: Timestamp)
        requires
            in_range(t@),
        ensures
            Timestamp::at(t@) == t,
    {
    }

    /// Two timestamps with the same UNIX time are the same timestamp.
    pub proof fn lemma_view_injective(a: Timestamp, b: Timestamp)
        ensures
            a@ == b@ ==> a == b,
    {
    }
}

/// Parse YYYY / YYYYMMDD / YYYYMMDDhhmmss string.
pub fn parse_timestamp(timestamp_str: &str) -> (res: Result<Timestamp, TimestampError>)
    ensures
        match parse_timestamp_spec(timestamp_str@) {
            Some(t) => res matches Ok(ts) && ts@ == t,
            None => res == Err::<Timestamp, TimestampError>(TimestampError::Invalid),
        },
{
    Timestamp::from_str(timestamp_str)
}

} // verus!
