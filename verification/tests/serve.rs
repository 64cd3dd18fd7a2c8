use archivehost::serve::{
    find_latest_page, latest_page_result, mime_for_path, page_window, serve_dummy_file, serve_file, serve_kind,
    site_redirect_path, lookup_step, page_answer, DummyFile, PageAnswer, LookupError, LookupStep, PageLookup, ServeKind, SiteList,
};
use archivehost::web_url::{parse_url, ParsedUrl, UrlError};

#[test]
fn parse_url_adds_http() {
    let u = parse_url("example.com/a").unwrap();
    assert_eq!(u.as_str(), "http://example.com/a");
    assert_eq!(u.scheme(), "http");
    assert_eq!(u.host_str(), Some("example.com"));
    assert_eq!(u.path(), "/a");
    let v = parse_url("https://example.com").unwrap();
    assert_eq!(v.scheme(), "https");
    assert_eq!(v.path(), "/");
    assert_eq!(parse_url("http://").unwrap_err(), UrlError::Parse);
}

#[test]
fn lookup_paths() {
    let u = parse_url("example.com/a/b").unwrap();
    let l = find_latest_page(&u).unwrap();
    assert_eq!(l.host, "example.com");
    assert_eq!(l.paths, vec!["/a/b".to_string(), "/a/b/index.html".to_string(), "/a/b/".to_string()]);
    let r = find_latest_page(&parse_url("example.com/a/").unwrap()).unwrap();
    assert_eq!(r.paths, vec!["/a/".to_string(), "/a/index.html".to_string(), "/a".to_string()]);
    let root = find_latest_page(&parse_url("example.com").unwrap()).unwrap();
    assert_eq!(root.paths, vec!["/".to_string(), "/index.html".to_string(), "/".to_string()]);
}

#[test]
fn lookup_errors() {
    let ftp = ParsedUrl::parse("ftp://example.com/a").unwrap();
    assert_eq!(find_latest_page(&ftp).unwrap_err(), LookupError::UnsupportedScheme);
}

#[test]
fn lookup_results() {
    assert!(latest_page_result("/data/downloads", None).unwrap().is_none());
    let (ts, path) = latest_page_result("/data/downloads", Some((1609459200, "20210101000000/http/a/index.html".to_string())))
        .unwrap()
        .unwrap();
    assert_eq!(ts.unix_time(), 1609459200);
    assert_eq!(path, "/data/downloads/20210101000000/http/a/index.html");
    assert_eq!(latest_page_result("/d", Some((i64::MAX, "x".to_string()))).unwrap_err(), LookupError::InvalidTimestamp);
}

#[test]
fn dummy_files() {
    assert_eq!(serve_dummy_file(&parse_url("example.com/a.png").unwrap()), Ok(DummyFile::Png));
    assert_eq!(serve_dummy_file(&parse_url("example.com/a.JPG").unwrap()), Ok(DummyFile::Png));
    assert_eq!(serve_dummy_file(&parse_url("example.com/a.gif").unwrap()), Ok(DummyFile::Png));
    assert_eq!(
        serve_dummy_file(&parse_url("example.com/a.css").unwrap()),
        Err((404, "Not found (dummy: dummy file for this mime is not found)".to_string()))
    );
    assert_eq!(
        serve_dummy_file(&parse_url("example.com/a").unwrap()),
        Err((404, "Not found (dummy: couldn't detect mime)".to_string()))
    );
}

#[test]
fn mime_kinds() {
    assert_eq!(mime_for_path("x/index.html").as_deref(), Some("text/html"));
    assert!(matches!(serve_kind("x/index.html"), Ok(ServeKind::Html)));
    match serve_kind("x/a.css") {
        Ok(ServeKind::Raw(m)) => assert_eq!(m, "text/css"),
        other => panic!("unexpected {:?}", other),
    }
    assert_eq!(serve_kind("x/noext").unwrap_err(), (500, "Failed to guess mime".to_string()));
}

#[test]
fn html_links_are_rewritten() {
    let url = parse_url("https://example.com/page").unwrap();
    let text = "<a href=\"https://example.com/x\">x</a><a href=\"http://example.com/y\">y</a><a href=\"http://other.org/\">z</a>";
    let out = serve_file(text, &url, "localhost:3000", "latest").unwrap();
    assert_eq!(
        out,
        "<a href=\"http://localhost:3000/web/latest/https://example.com/x\">x</a><a href=\"http://localhost:3000/web/latest/https://example.com/y\">y</a><a href=\"http://other.org/\">z</a>"
    );
    let std_like = text
        .replace("https://example.com", "http://example.com")
        .replace("http://example.com", "http://localhost:3000/web/latest/https://example.com");
    assert_eq!(out, std_like);
}

#[test]
fn redirect_and_window() {
    assert_eq!(site_redirect_path("example.com"), "/web/example.com/latest");
    assert_eq!(page_window(None, None), (0, 100));
    assert_eq!(page_window(Some(5), Some(0)), (5, 1));
    assert_eq!(page_window(Some(5), Some(50)), (5, 50));
    assert_eq!(page_window(None, Some(1000)), (0, 100));
    assert_eq!(SiteList.hosts_window(Some(3), Some(7)), (3, 7));
}

#[test]
fn first_candidate_with_a_record_wins() {
    let lookup = PageLookup {
        host: "example.com".to_string(),
        paths: vec!["/a".to_string(), "/a/index.html".to_string(), "/a.html".to_string()],
    };
    assert_eq!(lookup_step(&lookup, 0, true), LookupStep::Take);
    assert_eq!(lookup_step(&lookup, 0, false), LookupStep::Ask(1));
    assert_eq!(lookup_step(&lookup, 1, false), LookupStep::Ask(2));
    assert_eq!(lookup_step(&lookup, 2, true), LookupStep::Take);
    assert_eq!(lookup_step(&lookup, 2, false), LookupStep::NotFound);
}

#[test]
fn page_answers() {
    match page_answer(true, Ok(Some("/data/downloads/a.html".to_string()))) {
        Ok(PageAnswer::Saved(p)) => assert_eq!(p, "/data/downloads/a.html"),
        other => panic!("unexpected {:?}", other),
    }
    assert!(matches!(page_answer(false, Ok(None)), Ok(PageAnswer::Dummy)));
    match page_answer(true, Err(LookupError::NoHost.message())) {
        Err((code, msg)) => {
            assert_eq!(code, 400);
            assert_eq!(msg, "Bad request: No host found");
        }
        other => panic!("unexpected {:?}", other),
    }
    match page_answer(false, Err("database is gone".to_string())) {
        Err((code, msg)) => {
            assert_eq!(code, 500);
            assert_eq!(msg, "No page found");
        }
        other => panic!("unexpected {:?}", other),
    }
    assert_eq!(LookupError::UnsupportedScheme.message(), "Unsupported scheme");
    assert_eq!(LookupError::InvalidTimestamp.message(), "Invalid timestamp");
}
