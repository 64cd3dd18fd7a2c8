//! URLs as the `url` crate parses them, held as their parts.
use vstd::prelude::*;
use crate::text::{chars_of, concat_chars, has_prefix, starts_with, string_of};

verus! {

#[verifier::external_type_specification]
#[verifier::external_body]
pub struct ExUrl(url::Url);

#[verifier::external_type_specification]
#[verifier::external_body]
pub struct ExUrlParseError(url::ParseError);

/// A parsed URL: its serialization, scheme, host (if any) and path.
pub type UrlParts = (Seq<char>, Seq<char>, Option<Seq<char>>, Seq<char>);

/// The parts of the URL that `Url::parse(s)` yields: serialization
/// (`as_str`), `scheme`, `host_str` and `path`; `None` where it fails.
pub uninterp spec fn url_parse_spec(s: Seq<char>) -> Option<UrlParts>;

/// The path of the URL serialized as `serialized` after
/// `Url::set_path(path)`.
pub uninterp spec fn url_set_path_spec(serialized: Seq<char>, path: Seq<char>) -> Seq<char>;

/// A URL that `Url::parse` accepted, with the parts the library reads.
#[derive(Debug)]
pub struct ParsedUrl {
    url: url::Url,
    serialized: String,
    scheme: String,
    host: Option<String>,
    path: String,
}

impl View for ParsedUrl {
    type V = UrlParts;

    closed spec fn view(&self) -> UrlParts {
        (
            self.serialized@,
            self.scheme@,
            match self.host {
                Some(h) => Some(h@),
                None => None,
            },
            self.path@,
        )
    }
}

/// `Url::parse(s)`, its result read back as serialization, scheme, host and
/// path. Claims only that these are the named parts for `s`.
#[verifier::external_body]
fn url_parse(s: &str) -> (res: Result<ParsedUrl, url::ParseError>)
    ensures
        match res {
            Ok(u) => url_parse_spec(s@) == Some(u@),
            Err(_) => url_parse_spec(s@) is None,
        },
{
    match url::Url::parse(s) {
        Ok(url) => Ok(ParsedUrl {
            serialized: url.as_str().to_string(),
            scheme: url.scheme().to_string(),
            host: url.host_str().map(|h| h.to_string()),
            path: url.path().to_string(),
            url,
        }),
        Err(e) => Err(e),
    }
}

/// `Url::set_path(path)` on a copy of `u`, and the path it then has. Claims
/// only that this is the named path for `u`'s serialization and `path`.
#[verifier::external_body]
fn url_path_after_set(u: &ParsedUrl, path: &str) -> (res: String)
    ensures
        res@ == url_set_path_spec(u@.0, path@),
{
    let mut url = u.url.clone();
    url.set_path(path);
    url.path().to_string()
}

/// Why a URL could not be read.
#[derive(Clone, Copy, Debug, PartialEq, Eq, Structural)]
pub enum UrlError {
    /// `Url::parse` refused the text.
    Parse,
}

impl ParsedUrl {
    /// Parses `s` as an absolute URL.
    pub fn parse(s: &str) -> (res: Result<ParsedUrl, UrlError>)
        ensures
            match url_parse_spec(s@) {
                Some(parts) => res matches Ok(u) && u@ == parts,
                None => res == Err::<ParsedUrl, UrlError>(UrlError::Parse),
            },
    {
        match url_parse(s) {
            Ok(u) => Ok(u),
            Err(_) => Err(UrlError::Parse),
        }
    }

    /// The whole URL as text.
    pub fn as_str(&self) -> (r: &str)
        ensures
            r@ == self@.0,
    {
        self.serialized.as_str()
    }

    /// The scheme, such as `http`.
    pub fn scheme(&self) -> (r: &str)
        ensures
            r@ == self@.1,
    {
        self.scheme.as_str()
    }

    /// The host, if the URL has one.
    pub fn host_str(&self) -> (r: Option<&str>)
        ensures
            match r {
                Some(h) => self@.2 == Some(h@),
                None => self@.2 is None,
            },
    {
        match &self.host {
            Some(h) => Some(h.as_str()),
            None => None,
        }
    }

    /// The path.
    pub fn path(&self) -> (r: &str)
        ensures
            r@ == self@.3,
    {
        self.path.as_str()
    }

    /// The path this URL would have after `set_path(path)`.
    pub fn path_after_set(&self, path: &str) -> (r: String)
        ensures
            r@ == url_set_path_spec(self@.0, path@),
    {
        url_path_after_set(self, path)
    }
}

/// `http://` put before a text that does not already start with `http`.
pub open spec fn with_default_scheme(s: Seq<char>) -> Seq<char> {
    if has_prefix(s, "http"@) { s } else { "http://"@ + s }
}

/// Parses a URL given without scheme as an `http` one.
pub fn parse_url(url: &str) -> (res: Result<ParsedUrl, UrlError>)
    ensures
        match url_parse_spec(with_default_scheme(url@)) {
            Some(parts) => res matches Ok(u) && u@ == parts,
            None => res == Err::<ParsedUrl, UrlError>(UrlError::Parse),
        },
{
    let cs = chars_of(url);
    let http = chars_of("http");
    if starts_with(&cs, &http) {
        ParsedUrl::parse(url)
    } else {
        let prefixed = concat_chars(&chars_of("http://"), &cs);
        let s = string_of(&prefixed);
        ParsedUrl::parse(s.as_str())
    }
}

} // verus!
