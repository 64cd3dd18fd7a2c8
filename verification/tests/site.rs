use archivehost::client::{cdx_request_url, default_base_url, page_url, user_agent};
use archivehost::download::{DownloadError, DownloadResult};
use archivehost::site::{inject_service_worker, plan_site_download, site_file_exists_result, DownloadCounts, Outcome, SiteStep};

#[test]
fn site_plans() {
    match plan_site_download("http://example.com/a/", "text/html", "out").unwrap() {
        SiteStep::Save(p) => assert_eq!(p, "out/example.com/a/index.html"),
        other => panic!("unexpected {:?}", other),
    }
    match plan_site_download("http://example.com/x.zip", "application/zip", "out").unwrap() {
        SiteStep::Skip(r) => assert_eq!(r, DownloadResult::Skipped("Ignored mime: application/zip".to_string())),
        other => panic!("unexpected {:?}", other),
    }
    // Only the exact type is skipped here.
    assert!(matches!(plan_site_download("http://example.com/x.zip", "application/zip2", "out"), Ok(SiteStep::Save(_))));
    assert_eq!(plan_site_download("::", "text/html", "out").unwrap_err(), DownloadError::InvalidUrl);
    assert_eq!(site_file_exists_result(), DownloadResult::Skipped("File already exists".to_string()));
}

#[test]
fn counts_and_messages() {
    let mut c = DownloadCounts::default();
    c.record(Outcome::Done);
    c.record(Outcome::Done);
    c.record(Outcome::Skipped);
    c.record(Outcome::Error);
    assert_eq!(c, DownloadCounts { done: 2, skipped: 1, error: 1 });
    assert_eq!(c.progress_message(), "Done: 2, Skipped: 1, Error: 1");
    assert_eq!(c.completion_message(), "Completed!: Done: 2, Skipped: 1, Error: 1");
    let big = DownloadCounts { done: 1234567890, skipped: 10, error: 0 };
    assert_eq!(big.progress_message(), "Done: 1234567890, Skipped: 10, Error: 0");
}

#[test]
fn script_is_put_first() {
    let out = inject_service_worker(b"<html></html>");
    assert!(out.ends_with(b"<html></html>"));
    let text = String::from_utf8(out).unwrap();
    assert!(text.starts_with("\n<script>\n  if ('serviceWorker' in navigator) {"));
    assert!(text.contains("navigator.serviceWorker.register('/sw.js')"));
}

#[test]
fn request_urls() {
    assert_eq!(default_base_url(), "https://web.archive.org");
    assert!(user_agent().starts_with("Mozilla/5.0"));
    assert_eq!(cdx_request_url("https://web.archive.org", "url=a&output=json"), "https://web.archive.org/cdx/search/cdx?url=a&output=json");
    assert_eq!(page_url("https://web.archive.org", "20210101000000", "http://example.com"), "https://web.archive.org/web/20210101000000id_/http://example.com");
}
