use archivehost::cdx::{CdxData, CdxLine};
use archivehost::index::{
    get_latest_page_cdx, get_latest_pages_index, latest_pages_by_address, url_without_protocol, IndexError,
};
use archivehost::timestamp::Timestamp;

fn line(original: &str, t: i64, status: Option<u16>, digest: &str) -> CdxLine {
    CdxLine {
        url_key: "key".to_string(),
        timestamp: Timestamp::from_unix_time(t).unwrap(),
        original: original.to_string(),
        mime: "text/html".to_string(),
        status_code: status,
        digest: digest.to_string(),
        length: "1".to_string(),
    }
}

fn data(lines: Vec<CdxLine>) -> Option<CdxData> {
    Some(CdxData { data: lines, resume_key: None })
}

#[test]
fn no_index_is_an_error() {
    assert_eq!(get_latest_pages_index(None).unwrap_err(), IndexError::NoIndex);
    assert_eq!(get_latest_page_cdx(None).unwrap_err(), IndexError::NoIndex);
    assert_eq!(latest_pages_by_address(None).unwrap_err(), IndexError::NoIndex);
}

#[test]
fn latest_successful_capture_per_page() {
    let entries = get_latest_pages_index(data(vec![
        line("http://a/", 10, Some(200), "a1"),
        line("http://b/", 5, Some(200), "b1"),
        line("http://a/", 30, Some(200), "a3"),
        line("http://a/", 40, Some(404), "a4"),
        line("http://a/", 50, None, "a5"),
        line("http://a/", 30, Some(200), "a3bis"),
        line("http://c/", 1, Some(301), "c1"),
    ]))
    .unwrap();
    assert_eq!(entries.len(), 2);
    let a = entries.iter().find(|e| e.0 == "http://a/").unwrap();
    assert_eq!(a.1.digest, "a3");
    assert_eq!(a.1.timestamp.unix_time(), 30);
    let b = entries.iter().find(|e| e.0 == "http://b/").unwrap();
    assert_eq!(b.1.digest, "b1");
    assert!(entries.iter().all(|e| e.0 == e.1.original));
}

#[test]
fn empty_index_gives_empty_map() {
    assert!(get_latest_pages_index(data(vec![])).unwrap().is_empty());
}

#[test]
fn protocols_are_merged_for_the_site_downloader() {
    let entries = latest_pages_by_address(data(vec![
        line("http://a/x", 10, Some(200), "old"),
        line("https://a/x", 20, Some(200), "new"),
        line("https://a/y", 20, Some(200), "y"),
    ]))
    .unwrap();
    assert_eq!(entries.len(), 2);
    let x = entries.iter().find(|e| e.0 == "a/x").unwrap();
    assert_eq!(x.1.digest, "new");
    assert!(entries.iter().any(|e| e.0 == "a/y"));
}

#[test]
fn protocol_stripping() {
    assert_eq!(url_without_protocol("http://a"), "a");
    assert_eq!(url_without_protocol("https://a"), "a");
    assert_eq!(url_without_protocol("http://http://a"), "a");
    assert_eq!(url_without_protocol("https://http://a"), "http://a");
    assert_eq!(url_without_protocol("ftp://a"), "ftp://a");
}

#[test]
fn latest_page_is_last_of_the_latest() {
    let found = get_latest_page_cdx(data(vec![
        line("http://a/", 10, Some(200), "first"),
        line("http://a/", 30, Some(404), "second"),
        line("http://a/", 30, Some(200), "third"),
        line("http://a/", 20, Some(200), "fourth"),
    ]))
    .unwrap()
    .unwrap();
    assert_eq!(found.digest, "third");
    assert!(get_latest_page_cdx(data(vec![])).unwrap().is_none());
}
