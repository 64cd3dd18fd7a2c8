//! The stand-alone site downloader and server: where a capture is saved,
//! the tally of a run, and the script put into served pages.
use vstd::prelude::*;
use vstd::utf8::encode_utf8;
use crate::download::{file_path_spec, file_path_for, plan_spec, url_decode_spec, DownloadError, DownloadResult, DownloadResultView};
use crate::text::{chars_of, chars_eq, decimal, decimal_chars, extend_chars, join_path, join_path_chars, string_of};
use crate::web_url::{url_parse_spec, ParsedUrl};

verus! {

/// The MIME types the site downloader skips.
pub open spec fn site_ignored_mime(mime: Seq<char>) -> bool {
    mime == "application/zip"@
}

/// Where the site downloader saves a capture of `url`:
/// `<root>/<host>/<file path>`.
pub open spec fn site_plan_spec(url: Seq<char>, mime: Seq<char>, root: Seq<char>) -> Result<Seq<char>, DownloadError> {
    match url_parse_spec(url) {
        None => Err(DownloadError::InvalidUrl),
        Some((_, _, host, path)) => match host {
            None => Err(DownloadError::NoHost),
            Some(h) => match url_decode_spec(path) {
                None => Err(DownloadError::InvalidPathEncoding),
                Some(decoded) => Ok(join_path(join_path(root, h), file_path_spec(decoded, mime))),
            },
        },
    }
}

/// The site downloader saves a capture under its percent-decoded URL path:
/// where the path of the URL decodes to `d`, the file is
/// `<root>/<host>/<file path of d>`, and a path whose decoding is not UTF-8
/// is an `InvalidPathEncoding` error. It fails exactly where the archive
/// downloader fails, with the same error.
pub proof fn law_site_path_is_decoded(url: Seq<char>, mime: Seq<char>, root: Seq<char>, ts_text: Seq<char>)
    ensures
        match url_parse_spec(url) {
            Some((_, _, Some(h), p)) => match url_decode_spec(p) {
                None => site_plan_spec(url, mime, root) == Err::<Seq<char>, DownloadError>(DownloadError::InvalidPathEncoding),
                Some(d) => site_plan_spec(url, mime, root)
                    == Ok::<Seq<char>, DownloadError>(join_path(join_path(root, h), file_path_spec(d, mime))),
            },
            _ => site_plan_spec(url, mime, root) is Err,
        },
        site_plan_spec(url, mime, root) is Ok <==> plan_spec(url, mime, ts_text) is Ok,
        site_plan_spec(url, mime, root) matches Err(e) ==> plan_spec(url, mime, ts_text) matches Err(f) && e == f,
{
}

/// What the site downloader does with a capture.
#[derive(Debug)]
pub enum SiteStep {
    /// Leave it, with this result.
    Skip(DownloadResult),
    /// Save it at this path unless a file is already there.
    Save(String),
}

/// Plans one capture of the site downloader: a ZIP archive is skipped;
/// otherwise the capture is saved under its host in `save_root`.
pub fn plan_site_download(original: &str, mime: &str, save_root: &str) -> (res: Result<SiteStep, DownloadError>)
    ensures
        site_ignored_mime(mime@) ==> (res matches Ok(SiteStep::Skip(r))
            && r@ == DownloadResultView::Skipped("Ignored mime: "@ + mime@)),
        !site_ignored_mime(mime@) ==> match site_plan_spec(original@, mime@, save_root@) {
            Ok(p) => res matches Ok(SiteStep::Save(s)) && s@ == p,
            Err(e) => res == Err::<SiteStep, DownloadError>(e),
        },
{
    if chars_eq(&chars_of(mime), &chars_of("application/zip")) {
        let mut msg = String::from_str("Ignored mime: ");
        msg.append(mime);
        return Ok(SiteStep::Skip(DownloadResult::Skipped(msg)));
    }
    let url = match ParsedUrl::parse(original) {
        Ok(u) => u,
        Err(_) => return Err(DownloadError::InvalidUrl),
    };
    let host = match url.host_str() {
        Some(h) => h,
        None => return Err(DownloadError::NoHost),
    };
    let decoded = match crate::download::decode_url_path(url.path()) {
        Some(d) => d,
        None => return Err(DownloadError::InvalidPathEncoding),
    };
    let file_path = file_path_for(decoded.as_str(), mime);
    let a = join_path_chars(&chars_of(save_root), &chars_of(host));
    let b = join_path_chars(&a, &chars_of(file_path.as_str()));
    Ok(SiteStep::Save(string_of(&b)))
}

/// The result for a capture whose file is already there.
pub fn site_file_exists_result() -> (r: DownloadResult)
    ensures
        r@ == DownloadResultView::Skipped("File already exists"@),
{
    DownloadResult::Skipped(String::from_str("File already exists"))
}

/// How one capture of a run ended, for the tally.
#[derive(Clone, Copy, Debug, PartialEq, Eq, Structural)]
pub enum Outcome {
    Done,
    Skipped,
    Error,
}

/// The tally of a download run.
#[derive(Clone, Copy, Debug, Default, PartialEq, Eq, Structural)]
pub struct DownloadCounts {
    pub done: u64,
    pub skipped: u64,
    pub error: u64,
}

impl DownloadCounts {
    /// Counts one more capture with outcome `o`.
    pub fn record(&mut self, o: Outcome)
        requires
            old(self).done < u64::MAX,
            old(self).skipped < u64::MAX,
            old(self).error < u64::MAX,
        ensures
            final(self).done == old(self).done + (if o == Outcome::Done { 1int } else { 0int }),
            final(self).skipped == old(self).skipped + (if o == Outcome::Skipped { 1int } else { 0int }),
            final(self).error == old(self).error + (if o == Outcome::Error { 1int } else { 0int }),
    {
        match o {
            Outcome::Done => self.done = self.done + 1,
            Outcome::Skipped => self.skipped = self.skipped + 1,
            Outcome::Error => self.error = self.error + 1,
        }
    }

    /// `Done: <d>, Skipped: <s>, Error: <e>`.
    pub fn progress_message(&self) -> (r: String)
        ensures
            r@ == "Done: "@ + decimal(self.done as nat) + ", Skipped: "@ + decimal(self.skipped as nat)
                + ", Error: "@ + decimal(self.error as nat),
    {
        let mut r = chars_of("Done: ");
        extend_chars(&mut r, &decimal_chars(self.done));
        extend_chars(&mut r, &chars_of(", Skipped: "));
        extend_chars(&mut r, &decimal_chars(self.skipped));
        extend_chars(&mut r, &chars_of(", Error: "));
        extend_chars(&mut r, &decimal_chars(self.error));
        string_of(&r)
    }

    /// `Completed!: Done: <d>, Skipped: <s>, Error: <e>`.
    pub fn completion_message(&self) -> (r: String)
        ensures
            r@ == "Completed!: "@ + "Done: "@ + decimal(self.done as nat) + ", Skipped: "@
                + decimal(self.skipped as nat) + ", Error: "@ + decimal(self.error as nat),
    {
        let mut r = String::from_str("Completed!: ");
        let p = self.progress_message();
        r.append(p.as_str());
        r
    }
}

/// The script put before every HTML page the site server sends, which
/// registers the service worker at `/sw.js`.
pub open spec fn service_worker_script() -> Seq<char> {
    "\n<script>\n  if ('serviceWorker' in navigator) {\n    console.log('service worker is active');\n    navigator.serviceWorker.register('/sw.js').then(function (registration) {\n      console.log('ServiceWorker registration successful with scope: ', registration.scope);\n    }).catch(function (err) {\n      console.log('ServiceWorker registration failed: ', err);\n    });\n  }\n</script>\n            "@
}

/// An HTML body with the service-worker script put before it.
pub fn inject_service_worker(body: &[u8]) -> (r: Vec<u8>)
    ensures
        r@ == encode_utf8(service_worker_script()) + body@,
{
    let script: &str = "\n<script>\n  if ('serviceWorker' in navigator) {\n    console.log('service worker is active');\n    navigator.serviceWorker.register('/sw.js').then(function (registration) {\n      console.log('ServiceWorker registration successful with scope: ', registration.scope);\n    }).catch(function (err) {\n      console.log('ServiceWorker registration failed: ', err);\n    });\n  }\n</script>\n            ";
    let sb = script.as_bytes();
    let mut r: Vec<u8> = Vec::new();
    let n = sb.len();
    for i in 0..n
        invariant
            n == sb@.len(),
            r@ == sb@.take(i as int),
    {
        r.push(sb[i]);
        assert(sb@.take(i + 1) == sb@.take(i as int).push(sb@[i as int]));
    }
    assert(sb@.take(n as int) == sb@);
    let m = body.len();
    for i in 0..m
        invariant
            m == body@.len(),
            r@ == sb@ + body@.take(i as int),
    {
        r.push(body[i]);
        assert(body@.take(i + 1) == body@.take(i as int).push(body@[i as int]));
    }
    assert(body@.take(m as int) == body@);
    r
}

} // verus!
