use archivehost::numbers::parse_i32;
use archivehost::text::chars_of;
use archivehost::timestamp::{parse_timestamp, Timestamp, TimestampError};

fn year_end(y: i64) -> i64 {
    // Days from 1970-01-01 to y-12-31, by counting whole years (y >= 1970).
    let mut days: i64 = 0;
    for year in 1970..y {
        let leap = (year % 4 == 0 && year % 100 != 0) || year % 400 == 0;
        days += if leap { 366 } else { 365 };
    }
    days * 86400 + 364 * 86400 + 86399 + if (y % 4 == 0 && y % 100 != 0) || y % 400 == 0 { 86400 } else { 0 }
}

#[test]
fn wb_ts_parses_full_timestamp() {
    let ts = Timestamp::from_wb_ts("20210101000000").unwrap();
    assert_eq!(ts.unix_time(), 1609459200);
    assert_eq!(ts.to_wb_ts(), "20210101000000");
}

#[test]
fn wb_ts_refuses_date_only() {
    assert_eq!(Timestamp::from_wb_ts("20210101"), Err(TimestampError::Format));
    assert_eq!(Timestamp::from_wb_ts("hello"), Err(TimestampError::Format));
}

#[test]
fn year_gives_last_second_of_year() {
    let ts = Timestamp::from_year("2021").unwrap();
    assert_eq!(ts.unix_time(), 1640995199);
    assert_eq!(ts.to_wb_ts(), "20211231235959");
    assert_eq!(year_end(2021), 1640995199);
}

#[test]
fn year_errors() {
    assert_eq!(Timestamp::from_year("abc"), Err(TimestampError::NotANumber));
    assert_eq!(Timestamp::from_year(""), Err(TimestampError::NotANumber));
    assert_eq!(Timestamp::from_year("300000"), Err(TimestampError::InvalidYear));
    assert_eq!(Timestamp::from_year("99999999999"), Err(TimestampError::NotANumber));
}

#[test]
fn date_gives_last_second_of_day() {
    let ts = Timestamp::from_date("20210315").unwrap();
    assert_eq!(ts.unix_time(), 1615852799);
    let leap = Timestamp::from_date("20240229").unwrap();
    assert_eq!(leap.unix_time(), 1709251199);
    assert_eq!(Timestamp::from_date("20230229"), Err(TimestampError::Format));
}

#[test]
fn from_str_tries_timestamp_date_then_year() {
    assert_eq!(Timestamp::from_str("20210101000000").unwrap().unix_time(), 1609459200);
    assert_eq!(Timestamp::from_str("20210315").unwrap().unix_time(), 1615852799);
    assert_eq!(Timestamp::from_str("2021").unwrap().unix_time(), 1640995199);
    assert_eq!(Timestamp::from_str("+2021"), Err(TimestampError::Invalid));
    assert_eq!(Timestamp::from_str("202101"), Err(TimestampError::Invalid));
    assert_eq!(Timestamp::from_str("21"), Err(TimestampError::Invalid));
    assert_eq!(Timestamp::from_str("0999").unwrap().to_wb_ts(), "09991231235959");
    assert_eq!(Timestamp::from_str("not a date"), Err(TimestampError::Invalid));
    assert_eq!(parse_timestamp("2021").unwrap().unix_time(), 1640995199);
    assert_eq!(parse_timestamp("x"), Err(TimestampError::Invalid));
}

#[test]
fn unix_time_range() {
    assert_eq!(Timestamp::from_unix_time(0).unwrap().to_wb_ts(), "19700101000000");
    assert!(Timestamp::from_unix_time(-8334601228800).is_ok());
    assert!(Timestamp::from_unix_time(8210266876799).is_ok());
    assert_eq!(Timestamp::from_unix_time(8210266876800), Err(TimestampError::Invalid));
    assert_eq!(Timestamp::from_unix_time(-8334601228801), Err(TimestampError::Invalid));
}

#[test]
fn unix_time_round_trip() {
    for t in [0i64, 1, 1609459200, -1, -8334601228800, 8210266876799] {
        let ts = Timestamp::from_unix_time(t).unwrap();
        assert_eq!(Timestamp::from_unix_time(ts.unix_time()), Ok(ts));
    }
}

#[test]
fn ordering() {
    let a = Timestamp::from_unix_time(10).unwrap();
    let b = Timestamp::from_unix_time(20).unwrap();
    assert!(a.is_before(&b));
    assert!(!b.is_before(&a));
    assert!(!a.is_before(&a));
}

#[test]
fn i32_parsing_matches_std() {
    for s in ["0", "-0", "+5", "-", "+", "", "12a", " 1", "2147483647", "2147483648", "-2147483648", "-2147483649", "0007", "99999999999999999999"] {
        assert_eq!(parse_i32(&chars_of(s)), s.parse::<i32>().ok(), "input {:?}", s);
    }
}

#[test]
fn wb_text_before_1970_and_year_zero() {
    let t = Timestamp::from_date("19000101").unwrap();
    assert_eq!(t.to_wb_ts(), "19000101235959");
    let z = Timestamp::from_unix_time(-62167219200).unwrap();
    assert_eq!(z.to_wb_ts(), "00000101000000");
    let w = Timestamp::from_wb_ts("99991231235959").unwrap();
    assert_eq!(w.to_wb_ts(), "99991231235959");
}

#[test]
fn year_text_is_four_digits() {
    assert_eq!(parse_timestamp("202101"), Err(TimestampError::Invalid));
    assert_eq!(parse_timestamp("12345"), Err(TimestampError::Invalid));
    assert_eq!(parse_timestamp("-2021"), Err(TimestampError::Invalid));
    assert_eq!(parse_timestamp("1999").unwrap().to_wb_ts(), "19991231235959");
    // A year on its own, outside the timestamp parser, still takes any i32.
    assert!(Timestamp::from_year("202101").is_ok());
}

#[test]
fn wayback_text_round_trip() {
    for s in ["20210101000000", "19991231235959", "10000101000000", "99991231235959", "20240229120030"] {
        let t = Timestamp::from_wb_ts(s).unwrap();
        assert_eq!(t.to_wb_ts(), s);
        assert_eq!(Timestamp::from_wb_ts(&t.to_wb_ts()), Ok(t));
    }
    for u in [0i64, 1609459200, -30610224000, 253402300799] {
        let t = Timestamp::from_unix_time(u).unwrap();
        assert_eq!(Timestamp::from_wb_ts(&t.to_wb_ts()), Ok(t));
    }
}

#[test]
fn eight_digit_dates() {
    assert_eq!(Timestamp::from_wb_ts("20210101"), Err(TimestampError::Format));
    assert_eq!(Timestamp::from_date("20210101").unwrap().to_wb_ts(), "20210101235959");
    assert_eq!(Timestamp::from_str("20240229").unwrap().to_wb_ts(), "20240229235959");
    assert_eq!(Timestamp::from_str("20230229"), Err(TimestampError::Invalid));
}
