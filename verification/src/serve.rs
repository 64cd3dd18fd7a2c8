//! Serving saved captures: which record to look up, how to answer for a
//! missing one, and how links in a saved page are pointed back at the server.
use vstd::prelude::*;
use crate::calendar::in_range;
use crate::text::{
    chars_of, concat_chars, lemma_replace_all_absent, lemma_replace_all_at_start, occurs_in, ends_with, extend_chars, has_suffix, join_path, join_path_chars, replace_all,
    replace_all_chars, slice_to, string_of,
};
use crate::timestamp::Timestamp;
use crate::web_url::{url_set_path_spec, ParsedUrl};

verus! {

/// The first MIME type `mime_guess::from_path(path).first_raw()` gives for
/// `path` (decided by its extension); `None` where it knows none.
pub uninterp spec fn mime_guess_spec(path: Seq<char>) -> Option<Seq<char>>;

/// `mime_guess::from_path(path).first_raw()`, which looks at the extension
/// only. Claims only that the result is the named one.
#[verifier::external_body]
fn guess_mime(path: &str) -> (res: Option<String>)
    ensures
        match res {
            Some(m) => mime_guess_spec(path@) == Some(m@),
            None => mime_guess_spec(path@) is None,
        },
{
    match mime_guess::from_path(path).first_raw() {
        Some(m) => Some(m.to_string()),
        None => None,
    }
}

/// The MIME type guessed for `path` from its extension.
pub fn mime_for_path(path: &str) -> (r: Option<String>)
    ensures
        match r {
            Some(m) => mime_guess_spec(path@) == Some(m@),
            None => mime_guess_spec(path@) is None,
        },
{
    guess_mime(path)
}

/// An HTTP error answer: status code and message.
pub type HttpError = (u16, String);

/// The stand-in served for a page that is not in the archive.
#[derive(Clone, Copy, Debug, PartialEq, Eq, Structural)]
pub enum DummyFile {
    /// The placeholder PNG image.
    Png,
}

/// Images (PNG, JPEG, GIF) get the placeholder image; everything else, and
/// a path whose type cannot be guessed, a 404.
pub fn serve_dummy_file(web_url: &ParsedUrl) -> (res: Result<DummyFile, HttpError>)
    ensures
        match mime_guess_spec(web_url@.3) {
            None => res matches Err(e) && e.0 == 404 && e.1@ == "Not found (dummy: couldn't detect mime)"@,
            Some(m) => if m == "image/png"@ || m == "image/jpeg"@ || m == "image/gif"@ {
                res == Ok::<DummyFile, HttpError>(DummyFile::Png)
            } else {
                res matches Err(e) && e.0 == 404 && e.1@ == "Not found (dummy: dummy file for this mime is not found)"@
            },
        },
{
    let mime = match guess_mime(web_url.path()) {
        Some(m) => m,
        None => return Err((404, String::from_str("Not found (dummy: couldn't detect mime)"))),
    };
    let mc = chars_of(mime.as_str());
    let png = chars_of("image/png");
    let jpeg = chars_of("image/jpeg");
    let gif = chars_of("image/gif");
    if crate::text::chars_eq(&mc, &png) || crate::text::chars_eq(&mc, &jpeg) || crate::text::chars_eq(&mc, &gif) {
        Ok(DummyFile::Png)
    } else {
        Err((404, String::from_str("Not found (dummy: dummy file for this mime is not found)")))
    }
}

/// Why a saved page cannot be looked up.
#[derive(Clone, Copy, Debug, PartialEq, Eq, Structural)]
pub enum LookupError {
    /// Only `http` and `https` pages are archived.
    UnsupportedScheme,
    /// The URL has no host.
    NoHost,
    /// The record's timestamp is not an instant that can be held.
    InvalidTimestamp,
}

/// The host and the paths to look up, in order, for a URL.
#[derive(Debug)]
pub struct PageLookup {
    pub host: String,
    pub paths: Vec<String>,
}

/// The path with `index.html` below it.
pub open spec fn index_html_path(path: Seq<char>) -> Seq<char> {
    if has_suffix(path, "/"@) { path + "index.html"@ } else { path + "/index.html"@ }
}

/// The path with its trailing slash removed, or one added.
pub open spec fn alternate_path(path: Seq<char>) -> Seq<char> {
    if has_suffix(path, "/"@) { path.take(path.len() - 1) } else { path + "/"@ }
}

/// Find the latest page for a site and path: the lookups to make. Only
/// `http` and `https` URLs with a host are looked up, under the path as
/// given, then with `index.html` below it, then with the trailing slash
/// toggled (the last two as the URL normalizes them).
pub fn find_latest_page(url: &ParsedUrl) -> (res: Result<PageLookup, LookupError>)
    ensures
        url@.1 != "http"@ && url@.1 != "https"@ ==> res == Err::<PageLookup, LookupError>(LookupError::UnsupportedScheme),
        (url@.1 == "http"@ || url@.1 == "https"@) && url@.2 is None ==> res == Err::<PageLookup, LookupError>(LookupError::NoHost),
        (url@.1 == "http"@ || url@.1 == "https"@) && url@.2 is Some ==> (res matches Ok(l)
            && l.host@ == url@.2.unwrap()
            && l.paths.deep_view() == seq![
                url@.3,
                url_set_path_spec(url@.0, index_html_path(url@.3)),
                url_set_path_spec(url@.0, alternate_path(url@.3)),
            ]),
{
    let scheme = chars_of(url.scheme());
    if !crate::text::chars_eq(&scheme, &chars_of("http")) && !crate::text::chars_eq(&scheme, &chars_of("https")) {
        return Err(LookupError::UnsupportedScheme);
    }
    let host = match url.host_str() {
        Some(h) => h,
        None => return Err(LookupError::NoHost),
    };
    let path = chars_of(url.path());
    let slash = chars_of("/");
    proof { reveal_strlit("/"); }
    let with_index = if ends_with(&path, &slash) {
        concat_chars(&path, &chars_of("index.html"))
    } else {
        concat_chars(&path, &chars_of("/index.html"))
    };
    let alt = if ends_with(&path, &slash) {
        slice_to(&path, path.len() - 1)
    } else {
        concat_chars(&path, &slash)
    };
    let p0 = String::from_str(url.path());
    let p1 = url.path_after_set(string_of(&with_index).as_str());
    let p2 = url.path_after_set(string_of(&alt).as_str());
    let mut paths: Vec<String> = Vec::new();
    paths.push(p0);
    paths.push(p1);
    paths.push(p2);
    let ghost expected = seq![
        url@.3,
        url_set_path_spec(url@.0, index_html_path(url@.3)),
        url_set_path_spec(url@.0, alternate_path(url@.3)),
    ];
    assert(paths.deep_view() =~= expected);
    Ok(PageLookup { host: String::from_str(host), paths })
}

/// What to do after the database was asked about one candidate path.
#[derive(Clone, Copy, Debug, PartialEq, Eq, Structural)]
pub enum LookupStep {
    /// The path has a record: it is the page.
    Take,
    /// Ask about the candidate at this index next.
    Ask(usize),
    /// No candidate has a record.
    NotFound,
}

/// The first candidate path that has a record wins: after asking about
/// candidate `i` of `lookup.paths`, take it if it has a record, else go on
/// to the next one, until none is left.
pub fn lookup_step(lookup: &PageLookup, i: usize, has_record: bool) -> (r: LookupStep)
    requires
        i < lookup.paths@.len(),
    ensures
        has_record ==> r == LookupStep::Take,
        !has_record && i + 1 < lookup.paths@.len() ==> r == LookupStep::Ask((i + 1) as usize),
        !has_record && i + 1 == lookup.paths@.len() ==> r == LookupStep::NotFound,
{
    let n = lookup.paths.len();
    if has_record {
        LookupStep::Take
    } else if i + 1 < n {
        LookupStep::Ask(i + 1)
    } else {
        LookupStep::NotFound
    }
}

/// The latest saved page found for a lookup: its record's UNIX time and save
/// path (relative to `download_dir`), or nothing.
pub fn latest_page_result(download_dir: &str, found: Option<(i64, String)>) -> (res: Result<Option<(Timestamp, String)>, LookupError>)
    ensures
        found is None ==> res matches Ok(None),
        found matches Some((t, p)) ==> if in_range(t as int) {
            res matches Ok(Some((ts, full))) && ts@ == t && full@ == join_path(download_dir@, p@)
        } else {
            res == Err::<Option<(Timestamp, String)>, LookupError>(LookupError::InvalidTimestamp)
        },
{
    match found {
        None => Ok(None),
        Some((t, p)) => {
            let ts = match Timestamp::from_unix_time(t) {
                Ok(ts) => ts,
                Err(_) => return Err(LookupError::InvalidTimestamp),
            };
            let full = join_path_chars(&chars_of(download_dir), &chars_of(p.as_str()));
            Ok(Some((ts, string_of(&full))))
        },
    }
}

impl LookupError {
    /// The message of the error.
    pub fn message(&self) -> (r: String)
        ensures
            *self == LookupError::UnsupportedScheme ==> r@ == "Unsupported scheme"@,
            *self == LookupError::NoHost ==> r@ == "No host found"@,
            *self == LookupError::InvalidTimestamp ==> r@ == "Invalid timestamp"@,
    {
        match self {
            LookupError::UnsupportedScheme => String::from_str("Unsupported scheme"),
            LookupError::NoHost => String::from_str("No host found"),
            LookupError::InvalidTimestamp => String::from_str("Invalid timestamp"),
        }
    }
}

/// How a request for an archived page is answered once its lookup is done.
#[derive(Debug)]
pub enum PageAnswer {
    /// Serve the saved file at this path.
    Saved(String),
    /// Nothing is archived: serve the stand-in.
    Dummy,
}

/// The answer to `/web/latest/<url>` (`latest`) or `/web/<timestamp>/<url>`
/// for the outcome of the page lookup: a found file is served, no file gives
/// the stand-in, and a failed lookup is a 400 "Bad request: <message>" for
/// the latest page, a 500 "No page found" for a page at a timestamp.
pub fn page_answer(latest: bool, found: Result<Option<String>, String>) -> (r: Result<PageAnswer, HttpError>)
    ensures
        found matches Ok(Some(p)) ==> (r matches Ok(PageAnswer::Saved(q)) && q@ == p@),
        found matches Ok(None) ==> (r matches Ok(PageAnswer::Dummy)),
        found matches Err(m) ==> (r matches Err(e) && (if latest {
            e.0 == 400 && e.1@ == "Bad request: "@ + m@
        } else {
            e.0 == 500 && e.1@ == "No page found"@
        })),
{
    match found {
        Ok(Some(p)) => Ok(PageAnswer::Saved(p)),
        Ok(None) => Ok(PageAnswer::Dummy),
        Err(m) => if latest {
            let mut msg = String::from_str("Bad request: ");
            msg.append(m.as_str());
            Err((400, msg))
        } else {
            Err((500, String::from_str("No page found")))
        },
    }
}

/// How a saved file is answered.
#[derive(Debug)]
pub enum ServeKind {
    /// An HTML page, whose links are rewritten.
    Html,
    /// Any other file, sent as is with this content type.
    Raw(String),
}

/// A saved file is sent with the MIME type its name suggests; one whose
/// type cannot be guessed is a server error.
pub fn serve_kind(path: &str) -> (res: Result<ServeKind, HttpError>)
    ensures
        match mime_guess_spec(path@) {
            None => res matches Err(e) && e.0 == 500 && e.1@ == "Failed to guess mime"@,
            Some(m) => if m == "text/html"@ {
                res matches Ok(ServeKind::Html)
            } else {
                res matches Ok(ServeKind::Raw(t)) && t@ == m
            },
        },
{
    let mime = match guess_mime(path) {
        Some(m) => m,
        None => return Err((500, String::from_str("Failed to guess mime"))),
    };
    if crate::text::chars_eq(&chars_of(mime.as_str()), &chars_of("text/html")) {
        Ok(ServeKind::Html)
    } else {
        Ok(ServeKind::Raw(mime))
    }
}

/// A saved HTML page with links to its own host pointed at this server: an
/// `https://host` link becomes `http://host`, and every `http://host` link
/// becomes `http://<serve host>/web/<label>/<scheme>://host`.
pub open spec fn rewrite_spec(text: Seq<char>, host: Seq<char>, serve_host: Seq<char>, label: Seq<char>, scheme: Seq<char>) -> Seq<char> {
    let once = replace_all(text, "https://"@ + host, "http://"@ + host);
    replace_all(once, "http://"@ + host, "http://"@ + serve_host + "/web/"@ + label + "/"@ + scheme + "://"@ + host)
}

/// Link rewriting keeps the label it is given: in a page without
/// `https://<host>` links, a leading link `http://<host>` becomes
/// `http://<serve host>/web/<label>/<scheme>://<host>` and the rest of the
/// page is rewritten in the same way; where the rest holds no link to the
/// host it stays as it is.
pub proof fn law_own_host_link_gets_label(
    host: Seq<char>,
    serve_host: Seq<char>,
    label: Seq<char>,
    scheme: Seq<char>,
    rest: Seq<char>,
)
    requires
        !occurs_in("http://"@ + host + rest, "https://"@ + host),
    ensures
        rewrite_spec("http://"@ + host + rest, host, serve_host, label, scheme)
            == "http://"@ + serve_host + "/web/"@ + label + "/"@ + scheme + "://"@ + host
                + rewrite_spec(rest, host, serve_host, label, scheme),
        !occurs_in(rest, "http://"@ + host) ==> rewrite_spec("http://"@ + host + rest, host, serve_host, label, scheme)
            == "http://"@ + serve_host + "/web/"@ + label + "/"@ + scheme + "://"@ + host + rest,
{
    reveal_strlit("http://");
    reveal_strlit("https://");
    let link = "http://"@ + host;
    let secure = "https://"@ + host;
    let text = link + rest;
    let to = "http://"@ + serve_host + "/web/"@ + label + "/"@ + scheme + "://"@ + host;
    assert(text == "http://"@ + host + rest);
    lemma_replace_all_absent(text, secure, link);
    assert(!occurs_in(rest, secure)) by {
        if occurs_in(rest, secure) {
            let i = choose|i: int| 0 <= i && i + secure.len() <= rest.len() && #[trigger] rest.subrange(i, i + secure.len()) == secure;
            let j = i + link.len();
            assert(text.subrange(j, j + secure.len()) =~= rest.subrange(i, i + secure.len()));
            assert(occurs_in(text, secure));
        }
    }
    lemma_replace_all_absent(rest, secure, link);
    lemma_replace_all_at_start(link, rest, to);
    if !occurs_in(rest, link) {
        lemma_replace_all_absent(rest, link, to);
    }
}

/// An `https://<host>` link is pointed at the server the same way, under
/// the label it is given, whatever the page holds; the rest of the page is
/// rewritten in the same way, and stays as it is where it holds no link to
/// the host.
pub proof fn law_secure_own_host_link_gets_label(
    host: Seq<char>,
    serve_host: Seq<char>,
    label: Seq<char>,
    scheme: Seq<char>,
    rest: Seq<char>,
)
    ensures
        rewrite_spec("https://"@ + host + rest, host, serve_host, label, scheme)
            == "http://"@ + serve_host + "/web/"@ + label + "/"@ + scheme + "://"@ + host
                + rewrite_spec(rest, host, serve_host, label, scheme),
        !occurs_in(rest, "https://"@ + host) && !occurs_in(rest, "http://"@ + host) ==>
            rewrite_spec("https://"@ + host + rest, host, serve_host, label, scheme)
            == "http://"@ + serve_host + "/web/"@ + label + "/"@ + scheme + "://"@ + host + rest,
{
    reveal_strlit("http://");
    reveal_strlit("https://");
    let link = "http://"@ + host;
    let secure = "https://"@ + host;
    let to = "http://"@ + serve_host + "/web/"@ + label + "/"@ + scheme + "://"@ + host;
    assert("https://"@ + host + rest == secure + rest);
    lemma_replace_all_at_start(secure, rest, link);
    let once_rest = replace_all(rest, secure, link);
    lemma_replace_all_at_start(link, once_rest, to);
    if !occurs_in(rest, secure) && !occurs_in(rest, link) {
        lemma_replace_all_absent(rest, secure, link);
        lemma_replace_all_absent(rest, link, to);
    }
}

/// Serve file but replace some URLs. This is far from perfect but works
/// well enough for now: links to the page's own host are pointed at this
/// server; a URL without host is a server error.
pub fn serve_file(text: &str, orig_url: &ParsedUrl, serve_host: &str, label: &str) -> (res: Result<String, HttpError>)
    ensures
        orig_url@.2 is None ==> (res matches Err(e) && e.0 == 500 && e.1@ == "No host in request"@),
        orig_url@.2 matches Some(h) ==> (res matches Ok(t)
            && t@ == rewrite_spec(text@, h, serve_host@, label@, orig_url@.1)),
{
    let host = match orig_url.host_str() {
        Some(h) => h,
        None => return Err((500, String::from_str("No host in request"))),
    };
    let h = chars_of(host);
    let https_host = concat_chars(&chars_of("https://"), &h);
    let http_host = concat_chars(&chars_of("http://"), &h);
    let mut target = concat_chars(&chars_of("http://"), &chars_of(serve_host));
    extend_chars(&mut target, &chars_of("/web/"));
    extend_chars(&mut target, &chars_of(label));
    extend_chars(&mut target, &chars_of("/"));
    extend_chars(&mut target, &chars_of(orig_url.scheme()));
    extend_chars(&mut target, &chars_of("://"));
    extend_chars(&mut target, &h);
    proof {
        reveal_strlit("https://");
        reveal_strlit("http://");
    }
    let t = chars_of(text);
    let once = replace_all_chars(&t, &https_host, &http_host);
    let twice = replace_all_chars(&once, &http_host, &target);
    assert(target@ == "http://"@ + serve_host@ + "/web/"@ + label@ + "/"@ + orig_url@.1 + "://"@ + h@);
    Ok(string_of(&twice))
}

/// Where `/web/<site>` redirects: the latest capture of the site.
pub fn site_redirect_path(site: &str) -> (r: String)
    ensures
        r@ == "/web/"@ + site@ + "/latest"@,
{
    let mut r = String::from_str("/web/");
    r.append(site);
    r.append("/latest");
    r
}

/// The offset and page size of a host listing: no offset means 0, no size
/// means 100, and a size is clamped to 1..=100.
pub fn page_window(offset: Option<u64>, limit: Option<u64>) -> (r: (u64, u64))
    ensures
        r.0 == match offset { Some(o) => o, None => 0u64 },
        r.1 == match limit {
            Some(l) => if l > 100 { 100u64 } else if l < 1 { 1u64 } else { l },
            None => 100u64,
        },
        1 <= r.1 <= 100,
{
    let o = match offset {
        Some(o) => o,
        None => 0,
    };
    let l = match limit {
        Some(l) => {
            let m = if l < 100 { l } else { 100 };
            if m > 1 { m } else { 1 }
        },
        None => 100,
    };
    (o, l)
}

/// The GraphQL query object that lists the archived sites.
#[derive(Clone, Copy, Debug, Default)]
pub struct SiteList;

impl SiteList {
    /// The offset and page size that `hosts` uses for the given arguments.
    pub fn hosts_window(&self, offset: Option<u64>, limit: Option<u64>) -> (r: (u64, u64))
        ensures
            r.0 == match offset { Some(o) => o, None => 0u64 },
            r.1 == match limit {
                Some(l) => if l > 100 { 100u64 } else if l < 1 { 1u64 } else { l },
                None => 100u64,
            },
    {
        page_window(offset, limit)
    }
}

} // verus!
