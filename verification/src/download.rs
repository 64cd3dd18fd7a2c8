//! Deciding whether and where to save a capture.
use vstd::prelude::*;
use vstd::utf8::{decode_utf8, encode_utf8, encode_utf8_decode_utf8, encode_utf8_valid_utf8, valid_utf8};
use crate::text::{
    chars_of, concat_chars, ends_with, lemma_trim_char_start_concat, has_prefix, has_suffix, join_path, join_path_chars,
    starts_with, string_of, trim_char_start, trim_char_start_chars,
};
use crate::timestamp::{wb_ts_format, Timestamp};
use crate::web_url::{url_parse_spec, ParsedUrl};
use crate::cdx::CdxLine;

verus! {

/// `b` is an ASCII hexadecimal digit.
pub open spec fn is_hex_byte(b: u8) -> bool {
    (48 <= b && b <= 57) || (65 <= b && b <= 70) || (97 <= b && b <= 102)
}

/// The value of the hexadecimal digit `b`.
pub open spec fn hex_value(b: u8) -> int {
    if 48 <= b && b <= 57 { b - 48 } else if 65 <= b && b <= 70 { b - 55 } else { b - 87 }
}

/// Percent-decoding of bytes: `%` and two hex digits stand for one byte;
/// every other byte, a `%` without two hex digits after it included, stays.
pub open spec fn percent_decode_bytes(bs: Seq<u8>) -> Seq<u8>
    decreases bs.len(),
{
    if bs.len() == 0 {
        Seq::empty()
    } else if bs[0] == 37 && bs.len() >= 3 && is_hex_byte(bs[1]) && is_hex_byte(bs[2]) {
        seq![(hex_value(bs[1]) * 16 + hex_value(bs[2])) as u8] + percent_decode_bytes(bs.skip(3))
    } else {
        seq![bs[0]] + percent_decode_bytes(bs.skip(1))
    }
}

/// What `urlencoding::decode(s)` gives: the UTF-8 bytes of `s`
/// percent-decoded, read back as UTF-8; `None` where they are not UTF-8.
pub open spec fn url_decode_spec(s: Seq<char>) -> Option<Seq<char>> {
    let bs = percent_decode_bytes(encode_utf8(s));
    if valid_utf8(bs) { Some(decode_utf8(bs)) } else { None }
}

/// Bytes without a `%` percent-decode to themselves.
pub proof fn lemma_no_percent_unchanged(bs: Seq<u8>)
    requires
        forall|i: int| 0 <= i < bs.len() ==> bs[i] != 37,
    ensures
        percent_decode_bytes(bs) == bs,
    decreases bs.len(),
{
    if bs.len() > 0 {
        let rest = bs.skip(1);
        assert forall|i: int| 0 <= i < rest.len() implies rest[i] != 37 by {
            assert(rest[i] == bs[i + 1]);
        }
        lemma_no_percent_unchanged(rest);
        assert(seq![bs[0]] + rest =~= bs);
    }
}

/// A text whose UTF-8 bytes hold no `%` decodes to itself: decoding only
/// changes percent escapes.
pub proof fn law_plain_text_decodes_to_itself(s: Seq<char>)
    requires
        forall|i: int| 0 <= i < encode_utf8(s).len() ==> encode_utf8(s)[i] != 37,
    ensures
        url_decode_spec(s) == Some(s),
{
    lemma_no_percent_unchanged(encode_utf8(s));
    encode_utf8_valid_utf8(s);
    encode_utf8_decode_utf8(s);
}

/// `urlencoding::decode(s)`: percent-decodes the bytes of `s` (a `+` stays a
/// `+`) and reads the result as UTF-8 (`String::from_utf8`).
#[verifier::external_body]
fn url_decode(s: &str) -> (res: Option<String>)
    ensures
        match res {
            Some(d) => url_decode_spec(s@) == Some(d@),
            None => url_decode_spec(s@) is None,
        },
{
    match urlencoding::decode(s) {
        Ok(d) => Some(d.into_owned()),
        Err(_) => None,
    }
}

/// The URL path `path` percent-decoded and read as UTF-8.
pub fn decode_url_path(path: &str) -> (r: Option<String>)
    ensures
        match r {
            Some(d) => url_decode_spec(path@) == Some(d@),
            None => url_decode_spec(path@) is None,
        },
{
    url_decode(path)
}

/// How one capture's download ended.
#[derive(Clone, Debug, PartialEq, Eq)]
pub enum DownloadResult {
    /// The page was fetched, saved and recorded.
    Done,
    /// Nothing was done, for the reason given.
    Skipped(String),
    /// The file was already there and only its record was added.
    FixDb(String),
}

/// A download result, as plain values.
pub enum DownloadResultView {
    Done,
    Skipped(Seq<char>),
    FixDb(Seq<char>),
}

impl View for DownloadResult {
    type V = DownloadResultView;

    open spec fn view(&self) -> DownloadResultView {
        match self {
            DownloadResult::Done => DownloadResultView::Done,
            DownloadResult::Skipped(s) => DownloadResultView::Skipped(s@),
            DownloadResult::FixDb(s) => DownloadResultView::FixDb(s@),
        }
    }
}

/// Why a capture cannot be downloaded.
#[derive(Clone, Copy, Debug, PartialEq, Eq, Structural)]
pub enum DownloadError {
    /// The capture's address is not a URL.
    InvalidUrl,
    /// The capture's URL has no host.
    NoHost,
    /// The URL's path does not percent-decode to UTF-8.
    InvalidPathEncoding,
}

/// Where a capture goes: the record's key (scheme, host, raw path) and the
/// file, relative to the download directory.
#[derive(Debug)]
pub struct DownloadPlan {
    pub url_scheme: String,
    pub url_host: String,
    pub url_path: String,
    pub save_path_rel: String,
}

/// What to do with a capture before looking at the database and the disk.
#[derive(Debug)]
pub enum PlanStep {
    /// Leave it, with this result.
    Skip(DownloadResult),
    /// Check and fetch it, as planned.
    Fetch(DownloadPlan),
}

/// Some entry of `ignored` is a prefix of `mime`.
pub open spec fn mime_ignored(ignored: Seq<Seq<char>>, mime: Seq<char>) -> bool {
    exists|i: int| 0 <= i < ignored.len() && has_prefix(mime, #[trigger] ignored[i])
}

/// The file a decoded URL path is saved as: a directory path gets
/// `index.html`, an HTML page whose path does not end in `.html` becomes a
/// directory with an `index.html`; leading slashes are dropped.
pub open spec fn file_path_spec(decoded: Seq<char>, mime: Seq<char>) -> Seq<char> {
    let p = if has_suffix(decoded, "/"@) {
        decoded + "index.html"@
    } else if has_prefix(mime, "text/html"@) && !has_suffix(decoded, ".html"@) {
        decoded + "/index.html"@
    } else {
        decoded
    };
    trim_char_start(p, '/')
}

/// An HTML page whose decoded path ends neither in `/` nor in `.html` is
/// saved as a directory holding `index.html`, whatever else the path holds:
/// its file path is the path with `/index.html` added and leading slashes
/// dropped, so it ends in `/index.html` when the path has any character other
/// than a slash.
pub proof fn law_html_page_saved_as_index(decoded: Seq<char>, mime: Seq<char>)
    requires
        has_prefix(mime, "text/html"@),
        !has_suffix(decoded, "/"@),
        !has_suffix(decoded, ".html"@),
    ensures
        file_path_spec(decoded, mime) == trim_char_start(decoded + "/index.html"@, '/'),
        (exists|i: int| 0 <= i < decoded.len() && decoded[i] != '/')
            ==> file_path_spec(decoded, mime) == trim_char_start(decoded, '/') + "/index.html"@,
{
    if exists|i: int| 0 <= i < decoded.len() && decoded[i] != '/' {
        lemma_trim_char_start_concat(decoded, "/index.html"@, '/');
    }
}

/// A path that ends in `/` is saved as the `index.html` of that directory,
/// whatever the MIME type.
pub proof fn law_directory_saved_as_index(decoded: Seq<char>, mime: Seq<char>)
    requires
        has_suffix(decoded, "/"@),
    ensures
        file_path_spec(decoded, mime) == trim_char_start(decoded + "index.html"@, '/'),
{
}

/// A capture that is not HTML, or whose path already ends in `.html`, keeps
/// its decoded path, leading slashes dropped.
pub proof fn law_other_file_keeps_its_path(decoded: Seq<char>, mime: Seq<char>)
    requires
        !has_suffix(decoded, "/"@),
        !has_prefix(mime, "text/html"@) || has_suffix(decoded, ".html"@),
    ensures
        file_path_spec(decoded, mime) == trim_char_start(decoded, '/'),
{
}

/// The plan of a capture, as plain values: scheme, host, raw path and the
/// relative save path `<timestamp>/<scheme>/<host>/<file path>`.
pub open spec fn plan_spec(
    url: Seq<char>,
    mime: Seq<char>,
    ts_text: Seq<char>,
) -> Result<(Seq<char>, Seq<char>, Seq<char>, Seq<char>), DownloadError> {
    match url_parse_spec(url) {
        None => Err(DownloadError::InvalidUrl),
        Some((_, scheme, host, path)) => match host {
            None => Err(DownloadError::NoHost),
            Some(h) => match url_decode_spec(path) {
                None => Err(DownloadError::InvalidPathEncoding),
                Some(decoded) => Ok((scheme, h, path,
                    join_path(join_path(join_path(ts_text, scheme), h), file_path_spec(decoded, mime)))),
            },
        },
    }
}

/// `res` is the plan for a capture of `url` with MIME type `mime` taken at
/// UNIX time `t`: skipped with "Ignored mime: <mime>" where an ignored type
/// is a prefix of `mime`, else fetched as `plan_spec` works it out, or its
/// error.
pub open spec fn planned(
    res: Result<PlanStep, DownloadError>,
    ignored: Seq<Seq<char>>,
    url: Seq<char>,
    mime: Seq<char>,
    t: int,
) -> bool {
    if mime_ignored(ignored, mime) {
        res matches Ok(PlanStep::Skip(r)) && r@ == DownloadResultView::Skipped("Ignored mime: "@ + mime)
    } else {
        match plan_spec(url, mime, wb_ts_format(t as i64)) {
            Ok((scheme, host, path, save)) => res matches Ok(PlanStep::Fetch(p)) && p.url_scheme@ == scheme
                && p.url_host@ == host && p.url_path@ == path && p.save_path_rel@ == save,
            Err(e) => res == Err::<PlanStep, DownloadError>(e),
        }
    }
}

/// Whether some entry of `ignored` is a prefix of `mime`.
pub fn is_mime_ignored(ignored: &Vec<String>, mime: &str) -> (r: bool)
    ensures
        r == mime_ignored(ignored.deep_view(), mime@),
{
    let m = chars_of(mime);
    let n = ignored.len();
    let ghost ig = ignored.deep_view();
    for i in 0..n
        invariant
            n == ignored@.len(),
            ig == ignored.deep_view(),
            m@ == mime@,
            forall|j: int| 0 <= j < i ==> !has_prefix(mime@, #[trigger] ig[j]),
    {
        let p = chars_of(ignored[i].as_str());
        assert(ig[i as int] == ignored@[i as int]@);
        if starts_with(&m, &p) {
            return true;
        }
    }
    false
}

/// The file that a decoded URL path is saved as.
pub fn file_path_for(decoded: &str, mime: &str) -> (r: String)
    ensures
        r@ == file_path_spec(decoded@, mime@),
{
    let d = chars_of(decoded);
    let m = chars_of(mime);
    let slash = chars_of("/");
    let index = chars_of("index.html");
    let slash_index = chars_of("/index.html");
    let html = chars_of("text/html");
    let dot_html = chars_of(".html");
    let p = if ends_with(&d, &slash) {
        concat_chars(&d, &index)
    } else if starts_with(&m, &html) && !ends_with(&d, &dot_html) {
        concat_chars(&d, &slash_index)
    } else {
        d
    };
    let t = trim_char_start_chars(&p, '/');
    string_of(&t)
}

/// Download page and insert info to db: the part that decides. A capture
/// whose MIME type starts with an ignored one is skipped; otherwise its URL
/// is read and the file it is saved as is worked out.
pub fn plan_download(
    url_str: &str,
    mime: &str,
    timestamp: &Timestamp,
    ignored_mime_types: &Vec<String>,
) -> (res: Result<PlanStep, DownloadError>)
    ensures
        planned(res, ignored_mime_types.deep_view(), url_str@, mime@, timestamp@),
{
    if is_mime_ignored(ignored_mime_types, mime) {
        let mut msg = String::from_str("Ignored mime: ");
        msg.append(mime);
        return Ok(PlanStep::Skip(DownloadResult::Skipped(msg)));
    }
    let url = match ParsedUrl::parse(url_str) {
        Ok(u) => u,
        Err(_) => return Err(DownloadError::InvalidUrl),
    };
    let host = match url.host_str() {
        Some(h) => h,
        None => return Err(DownloadError::NoHost),
    };
    let decoded = match decode_url_path(url.path()) {
        Some(d) => d,
        None => return Err(DownloadError::InvalidPathEncoding),
    };
    let file_path = file_path_for(decoded.as_str(), mime);
    let ts = timestamp.to_wb_ts();
    let a = join_path_chars(&chars_of(ts.as_str()), &chars_of(url.scheme()));
    let b = join_path_chars(&a, &chars_of(host));
    let c = join_path_chars(&b, &chars_of(file_path.as_str()));
    Ok(PlanStep::Fetch(DownloadPlan {
        url_scheme: String::from_str(url.scheme()),
        url_host: String::from_str(host),
        url_path: String::from_str(url.path()),
        save_path_rel: string_of(&c),
    }))
}

/// The plan for a capture as it comes from the CDX index: the same as
/// `plan_download` of its original URL, MIME type and timestamp.
pub fn plan_download_page(record: &CdxLine, ignored_mime_types: &Vec<String>) -> (res: Result<PlanStep, DownloadError>)
    ensures
        planned(res, ignored_mime_types.deep_view(), record@.original, record@.mime, record@.timestamp),
{
    plan_download(record.original.as_str(), record.mime.as_str(), &record.timestamp, ignored_mime_types)
}

/// What to do once the database and the disk have been looked at.
#[derive(Clone, Copy, Debug, PartialEq, Eq, Structural)]
pub enum NextStep {
    /// The capture is already recorded: skip it.
    AlreadyRecorded,
    /// The file is there but not recorded: record it.
    RecordExisting,
    /// Fetch the page, save it and record it.
    Fetch,
}

/// A recorded capture is skipped; a file already on disk is only recorded;
/// otherwise the page is fetched.
pub fn next_step(in_db: bool, file_exists: bool) -> (r: NextStep)
    ensures
        in_db ==> r == NextStep::AlreadyRecorded,
        !in_db && file_exists ==> r == NextStep::RecordExisting,
        !in_db && !file_exists ==> r == NextStep::Fetch,
{
    if in_db {
        NextStep::AlreadyRecorded
    } else if file_exists {
        NextStep::RecordExisting
    } else {
        NextStep::Fetch
    }
}

/// The result reported for each step that ends the download.
pub fn step_result(step: NextStep) -> (r: DownloadResult)
    ensures
        step == NextStep::AlreadyRecorded ==> r@ == DownloadResultView::Skipped("Already exists in db"@),
        step == NextStep::RecordExisting ==> r@ == DownloadResultView::FixDb("File already exists. Data is inserted to db."@),
        step == NextStep::Fetch ==> r@ == DownloadResultView::Done,
{
    match step {
        NextStep::AlreadyRecorded => DownloadResult::Skipped(String::from_str("Already exists in db")),
        NextStep::RecordExisting => DownloadResult::FixDb(String::from_str("File already exists. Data is inserted to db.")),
        NextStep::Fetch => DownloadResult::Done,
    }
}

} // verus!
