use archivehost::cdx::{parse_cdx_response, CdxError, CdxMatchType, CdxOptions};
use archivehost::status::{is_success, is_valid_status_code, parse_status_code};
use archivehost::timestamp::Timestamp;

fn row(fields: &[&str]) -> Vec<String> {
    fields.iter().map(|s| s.to_string()).collect()
}

fn header() -> Vec<String> {
    row(&["urlkey", "timestamp", "original", "mimetype", "statuscode", "digest", "length"])
}

fn capture(ts: &str, original: &str, status: &str) -> Vec<String> {
    row(&["com,example)/", ts, original, "text/html", status, "DIGEST", "1234"])
}

#[test]
fn empty_answer_is_none() {
    assert!(parse_cdx_response(&vec![]).unwrap().is_none());
}

#[test]
fn header_only_gives_no_captures() {
    let d = parse_cdx_response(&vec![header()]).unwrap().unwrap();
    assert!(d.data.is_empty());
    assert!(d.resume_key.is_none());
}

#[test]
fn captures_are_read_in_order() {
    let lines = vec![
        header(),
        capture("20210101000000", "http://example.com/", "200"),
        capture("20210102000000", "http://example.com/a", "-"),
    ];
    let d = parse_cdx_response(&lines).unwrap().unwrap();
    assert_eq!(d.data.len(), 2);
    assert_eq!(d.data[0].url_key, "com,example)/");
    assert_eq!(d.data[0].timestamp.unix_time(), 1609459200);
    assert_eq!(d.data[0].original, "http://example.com/");
    assert_eq!(d.data[0].mime, "text/html");
    assert_eq!(d.data[0].status_code, Some(200));
    assert_eq!(d.data[0].digest, "DIGEST");
    assert_eq!(d.data[0].length, "1234");
    assert_eq!(d.data[1].status_code, None);
    assert!(d.resume_key.is_none());
}

#[test]
fn resume_key_is_taken_apart() {
    let lines = vec![
        header(),
        capture("20210101000000", "http://example.com/", "200"),
        vec![],
        row(&["RESUMEKEY"]),
    ];
    let d = parse_cdx_response(&lines).unwrap().unwrap();
    assert_eq!(d.data.len(), 1);
    assert_eq!(d.resume_key.as_deref(), Some("RESUMEKEY"));
}

#[test]
fn short_answer_keeps_trailing_lines() {
    // With only two lines a trailing key is not recognised.
    let lines = vec![vec![], row(&["RESUMEKEY"])];
    match parse_cdx_response(&lines) {
        Err(CdxError::UnexpectedHeader(h)) => assert!(h.is_empty()),
        other => panic!("unexpected {:?}", other),
    }
}

#[test]
fn wrong_header_is_an_error() {
    let lines = vec![row(&["a", "b"]), capture("20210101000000", "http://example.com/", "200")];
    match parse_cdx_response(&lines) {
        Err(CdxError::UnexpectedHeader(h)) => assert_eq!(h, row(&["a", "b"])),
        other => panic!("unexpected {:?}", other),
    }
}

#[test]
fn malformed_line_is_an_error() {
    let lines = vec![header(), capture("20210101000000", "http://example.com/", "200"), row(&["x"])];
    assert!(matches!(parse_cdx_response(&lines), Err(CdxError::MalformedLine)));
}

#[test]
fn bad_timestamp_is_an_error() {
    let lines = vec![header(), capture("2021", "http://example.com/", "200"), row(&["x"])];
    match parse_cdx_response(&lines) {
        Err(CdxError::BadTimestamp(t)) => assert_eq!(t, "2021"),
        other => panic!("unexpected {:?}", other),
    }
}

#[test]
fn status_codes_parse_like_http() {
    assert_eq!(parse_status_code("200"), Some(200));
    assert_eq!(parse_status_code("404"), Some(404));
    assert_eq!(parse_status_code("999"), Some(999));
    assert_eq!(parse_status_code("099"), None);
    assert_eq!(parse_status_code("-"), None);
    assert_eq!(parse_status_code("2000"), None);
    assert_eq!(parse_status_code("2a0"), None);
    for s in ["100", "200", "099", "abc", "1000", "", "५००"] {
        assert_eq!(parse_status_code(s), s.parse::<http::StatusCode>().ok().map(|c| c.as_u16()), "input {:?}", s);
    }
    assert!(is_success(200) && is_success(299) && !is_success(300) && !is_success(199));
    assert!(is_valid_status_code(100) && is_valid_status_code(999));
    assert!(!is_valid_status_code(99) && !is_valid_status_code(1000));
}

#[test]
fn raw_options_carry_the_query() {
    let opts = CdxOptions {
        url: "example.com".to_string(),
        limit: Some(10),
        from: Some(Timestamp::from_wb_ts("20210101000000").unwrap()),
        to: None,
        collapse: Some("urlkey".to_string()),
        match_type: Some(CdxMatchType::Exact),
        filter: None,
        resume_key: Some("k".to_string()),
    };
    let raw = opts.into_raw();
    assert_eq!(raw.url, "example.com");
    assert_eq!(raw.limit, Some(10));
    assert_eq!(raw.from.as_deref(), Some("20210101000000"));
    assert_eq!(raw.to, None);
    assert_eq!(raw.collapse.as_deref(), Some("urlkey"));
    assert_eq!(raw.match_type, Some(CdxMatchType::Exact));
    assert_eq!(raw.show_resume_key, Some(true));
    assert_eq!(raw.resume_key.as_deref(), Some("k"));
    assert_eq!(raw.output.as_deref(), Some("json"));
}
