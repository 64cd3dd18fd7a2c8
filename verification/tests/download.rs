use archivehost::cdx::CdxLine;
use archivehost::download::{
    decode_url_path, file_path_for, is_mime_ignored, next_step, plan_download, plan_download_page, step_result, DownloadError,
    DownloadResult, NextStep, PlanStep,
};
use archivehost::timestamp::Timestamp;

fn ts() -> Timestamp {
    Timestamp::from_wb_ts("20210101000000").unwrap()
}

fn zip() -> Vec<String> {
    vec!["application/zip".to_string()]
}

fn plan(url: &str, mime: &str) -> Result<PlanStep, DownloadError> {
    plan_download(url, mime, &ts(), &zip())
}

fn saved(url: &str, mime: &str) -> String {
    match plan(url, mime).unwrap() {
        PlanStep::Fetch(p) => p.save_path_rel,
        other => panic!("unexpected {:?}", other),
    }
}

#[test]
fn ignored_mime_prefix_is_skipped() {
    match plan("http://example.com/a.zip", "application/zip; charset=binary").unwrap() {
        PlanStep::Skip(r) => assert_eq!(r, DownloadResult::Skipped("Ignored mime: application/zip; charset=binary".to_string())),
        other => panic!("unexpected {:?}", other),
    }
    assert!(is_mime_ignored(&zip(), "application/zip"));
    assert!(!is_mime_ignored(&zip(), "application/json"));
    assert!(!is_mime_ignored(&vec![], "application/zip"));
}

#[test]
fn save_paths() {
    assert_eq!(saved("http://example.com/", "text/html"), "20210101000000/http/example.com/index.html");
    assert_eq!(saved("http://example.com/about", "text/html"), "20210101000000/http/example.com/about/index.html");
    assert_eq!(saved("https://example.com/page.html", "text/html"), "20210101000000/https/example.com/page.html");
    assert_eq!(saved("http://example.com/img/a.png", "image/png"), "20210101000000/http/example.com/img/a.png");
    assert_eq!(saved("http://example.com/a%20b.css", "text/css"), "20210101000000/http/example.com/a b.css");
    assert_eq!(saved("http://example.com//x", "text/css"), "20210101000000/http/example.com/x");
}

#[test]
fn plan_keeps_the_record_key() {
    match plan("https://Example.com/a%20b?q=1", "text/plain").unwrap() {
        PlanStep::Fetch(p) => {
            assert_eq!(p.url_scheme, "https");
            assert_eq!(p.url_host, "example.com");
            assert_eq!(p.url_path, "/a%20b");
        },
        other => panic!("unexpected {:?}", other),
    }
}

#[test]
fn plan_errors() {
    assert_eq!(plan("not a url", "text/html").unwrap_err(), DownloadError::InvalidUrl);
    assert_eq!(plan("data:text/plain,hi", "text/plain").unwrap_err(), DownloadError::NoHost);
    assert_eq!(plan("http://example.com/%ff", "text/plain").unwrap_err(), DownloadError::InvalidPathEncoding);
}

#[test]
fn percent_decoding() {
    assert_eq!(decode_url_path("/a%20b").as_deref(), Some("/a b"));
    assert_eq!(decode_url_path("/a+b").as_deref(), Some("/a+b"));
    assert_eq!(decode_url_path("/%zz%4").as_deref(), Some("/%zz%4"));
    assert_eq!(decode_url_path("/%C3%A9").as_deref(), Some("/é"));
    assert_eq!(decode_url_path("/%C3"), None);
}

#[test]
fn file_paths() {
    assert_eq!(file_path_for("/", "text/html"), "index.html");
    assert_eq!(file_path_for("/dir/", "image/png"), "dir/index.html");
    assert_eq!(file_path_for("/a", "text/html; charset=utf-8"), "a/index.html");
    assert_eq!(file_path_for("/a.html", "text/html"), "a.html");
    assert_eq!(file_path_for("/a", "text/plain"), "a");
}

#[test]
fn steps_after_checks() {
    assert_eq!(next_step(true, true), NextStep::AlreadyRecorded);
    assert_eq!(next_step(true, false), NextStep::AlreadyRecorded);
    assert_eq!(next_step(false, true), NextStep::RecordExisting);
    assert_eq!(next_step(false, false), NextStep::Fetch);
    assert_eq!(step_result(NextStep::AlreadyRecorded), DownloadResult::Skipped("Already exists in db".to_string()));
    assert_eq!(step_result(NextStep::RecordExisting), DownloadResult::FixDb("File already exists. Data is inserted to db.".to_string()));
    assert_eq!(step_result(NextStep::Fetch), DownloadResult::Done);
}

fn capture(original: &str, mime: &str) -> CdxLine {
    CdxLine {
        url_key: "com,example)/".to_string(),
        timestamp: ts(),
        original: original.to_string(),
        mime: mime.to_string(),
        status_code: Some(200),
        digest: "ABC".to_string(),
        length: "100".to_string(),
    }
}

#[test]
fn capture_plan_matches_plan_of_its_fields() {
    for (url, mime) in [
        ("http://example.com/a/", "text/html"),
        ("http://example.com/a.zip", "application/zip"),
        ("not a url", "text/html"),
        ("http://example.com/%FF", "text/html"),
    ] {
        let a = format!("{:?}", plan_download_page(&capture(url, mime), &zip()));
        let b = format!("{:?}", plan(url, mime));
        assert_eq!(a, b);
    }
    match plan_download_page(&capture("https://example.com/x", "text/html"), &zip()).unwrap() {
        PlanStep::Fetch(p) => assert_eq!(p.save_path_rel, "20210101000000/https/example.com/x/index.html"),
        other => panic!("unexpected {:?}", other),
    }
}
