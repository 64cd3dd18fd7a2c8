//! Requests to the Wayback Machine.
use vstd::prelude::*;

verus! {

/// The Wayback Machine's address.
pub fn default_base_url() -> (r: String)
    ensures
        r@ == "https://web.archive.org"@,
{
    String::from_str("https://web.archive.org")
}

/// The browser name the client sends.
pub fn user_agent() -> (r: String)
    ensures
        r@ == "Mozilla/5.0 (Windows NT 10.0; Win64; x64; rv:109.0) Gecko/20100101 Firefox/115.0"@,
{
    String::from_str("Mozilla/5.0 (Windows NT 10.0; Win64; x64; rv:109.0) Gecko/20100101 Firefox/115.0")
}

/// The CDX search request for the encoded query `params`.
pub fn cdx_request_url(base_url: &str, params: &str) -> (r: String)
    ensures
        r@ == base_url@ + "/cdx/search/cdx?"@ + params@,
{
    let mut r = String::from_str(base_url);
    r.append("/cdx/search/cdx?");
    r.append(params);
    r
}

/// The request for the raw capture (`id_`) of `url` at `snapshot_date`.
pub fn page_url(base_url: &str, snapshot_date: &str, url: &str) -> (r: String)
    ensures
        r@ == base_url@ + "/web/"@ + snapshot_date@ + "id_/"@ + url@,
{
    let mut r = String::from_str(base_url);
    r.append("/web/");
    r.append(snapshot_date);
    r.append("id_/");
    r.append(url);
    r
}

} // verus!
