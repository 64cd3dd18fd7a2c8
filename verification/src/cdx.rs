//! The Wayback Machine's CDX index: query options and the reading of its
//! JSON answer (an array of string arrays) into index lines.
use vstd::prelude::*;
use crate::status::{parse_status_code, status_code_spec};
use crate::text::{chars_eq, chars_of};
use crate::timestamp::{wb_ts_format, wb_ts_parse, Timestamp};

verus! {

/// The default behavior is to return matches for an exact url. However, the cdx server can also return results matching a certain prefix,
/// a certain host or all subdomains by using the matchType= param.
///
/// The matchType may also be set implicitly by using wildcard '*' at end or beginning of the url:
/// - If url is ends in '/*', eg url=archive.org/* the query is equivalent to url=archive.org/&matchType=prefix
/// - if url starts with '*.', eg url=*.archive.org/ the query is equivalent to url=archive.org/&matchType=domain
#[derive(Clone, Copy, Debug, PartialEq, Eq, Structural)]
pub enum CdxMatchType {
    /// matchType=exact (default if omitted) will return results matching exactly archive.org/about/
    Exact,
    /// matchType=prefix will return results for all results under the path archive.org/about/
    Prefix,
    /// matchType=host will return results from host archive.org
    Host,
    /// matchType=domain will return results from host archive.org and all subhosts *.archive.org
    Domain,
}

/// The query parameters of a CDX request, as sent.
#[derive(Debug)]
pub struct CdxRawOptions {
    pub url: String,
    pub limit: Option<u32>,
    pub from: Option<String>,
    pub to: Option<String>,
    pub collapse: Option<String>,
    pub match_type: Option<CdxMatchType>,
    pub show_resume_key: Option<bool>,
    pub resume_key: Option<String>,
    pub filter: Option<String>,
    pub output: Option<String>,
}

/// A CDX query, with its time bounds as timestamps.
#[derive(Debug)]
pub struct CdxOptions {
    pub url: String,
    pub limit: Option<u32>,
    pub from: Option<Timestamp>,
    pub to: Option<Timestamp>,
    pub collapse: Option<String>,
    pub match_type: Option<CdxMatchType>,
    pub filter: Option<String>,
    pub resume_key: Option<String>,
}

/// One capture listed by the CDX index.
#[derive(Debug)]
pub struct CdxLine {
    pub url_key: String,
    pub timestamp: Timestamp,
    pub original: String,
    pub mime: String,
    pub status_code: Option<u16>,
    pub digest: String,
    pub length: String,
}

/// A capture, as plain values.
pub struct CdxLineView {
    pub url_key: Seq<char>,
    pub timestamp: int,
    pub original: Seq<char>,
    pub mime: Seq<char>,
    pub status_code: Option<u16>,
    pub digest: Seq<char>,
    pub length: Seq<char>,
}

impl View for CdxLine {
    type V = CdxLineView;

    open spec fn view(&self) -> CdxLineView {
        CdxLineView {
            url_key: self.url_key@,
            timestamp: self.timestamp@,
            original: self.original@,
            mime: self.mime@,
            status_code: self.status_code,
            digest: self.digest@,
            length: self.length@,
        }
    }
}

/// A page of the CDX index and the key to ask for the next page, if any.
#[derive(Debug)]
pub struct CdxData {
    pub data: Vec<CdxLine>,
    pub resume_key: Option<String>,
}

/// An index page, as plain values.
pub struct CdxDataView {
    pub data: Seq<CdxLineView>,
    pub resume_key: Option<Seq<char>>,
}

/// The captures of `v`, as plain values.
pub open spec fn lines_view(v: Seq<CdxLine>) -> Seq<CdxLineView> {
    v.map_values(|l: CdxLine| l@)
}

impl View for CdxData {
    type V = CdxDataView;

    open spec fn view(&self) -> CdxDataView {
        CdxDataView {
            data: lines_view(self.data@),
            resume_key: match self.resume_key {
                Some(k) => Some(k@),
                None => None,
            },
        }
    }
}

/// Why a CDX answer could not be read.
#[derive(Debug)]
pub enum CdxError {
    /// The first line is not the expected column header; it is held here.
    UnexpectedHeader(Vec<String>),
    /// A line does not have the seven expected fields.
    MalformedLine,
    /// A line's timestamp field is not a Wayback timestamp; it is held here.
    BadTimestamp(String),
}

/// A CDX reading error, as plain values.
pub enum CdxErrorView {
    UnexpectedHeader(Seq<Seq<char>>),
    MalformedLine,
    BadTimestamp(Seq<char>),
}

impl View for CdxError {
    type V = CdxErrorView;

    open spec fn view(&self) -> CdxErrorView {
        match self {
            CdxError::UnexpectedHeader(h) => CdxErrorView::UnexpectedHeader(h.deep_view()),
            CdxError::MalformedLine => CdxErrorView::MalformedLine,
            CdxError::BadTimestamp(t) => CdxErrorView::BadTimestamp(t@),
        }
    }
}

/// A reading result, as plain values.
pub open spec fn response_view(r: Result<Option<CdxData>, CdxError>) -> Result<Option<CdxDataView>, CdxErrorView> {
    match r {
        Ok(Some(d)) => Ok(Some(d@)),
        Ok(None) => Ok(None),
        Err(e) => Err(e@),
    }
}

/// The column header that opens every CDX answer in JSON output.
pub open spec fn cdx_header() -> Seq<Seq<char>> {
    seq!["urlkey"@, "timestamp"@, "original"@, "mimetype"@, "statuscode"@, "digest"@, "length"@]
}

/// The answer ends with a resume key: at least three lines, the last holding
/// one string (the key) and the one before it empty.
pub open spec fn has_resume_key(lines: Seq<Seq<Seq<char>>>) -> bool {
    lines.len() >= 3 && lines.last().len() == 1 && lines[lines.len() - 2].len() == 0
}

/// The lines of the answer without the resume key and its empty separator.
pub open spec fn body_lines(lines: Seq<Seq<Seq<char>>>) -> Seq<Seq<Seq<char>>> {
    if has_resume_key(lines) { lines.take(lines.len() - 2) } else { lines }
}

/// One data line read as a capture: seven fields, the second a Wayback
/// timestamp; a status code that does not parse is kept as `None`.
pub open spec fn line_spec(l: Seq<Seq<char>>) -> Result<CdxLineView, CdxErrorView> {
    if l.len() != 7 {
        Err(CdxErrorView::MalformedLine)
    } else {
        match wb_ts_parse(l[1]) {
            None => Err(CdxErrorView::BadTimestamp(l[1])),
            Some(t) => Ok(CdxLineView {
                url_key: l[0],
                timestamp: t as int,
                original: l[2],
                mime: l[3],
                status_code: status_code_spec(l[4]),
                digest: l[5],
                length: l[6],
            }),
        }
    }
}

/// All data lines read in order; the first line that fails decides the error.
pub open spec fn lines_spec(ls: Seq<Seq<Seq<char>>>) -> Result<Seq<CdxLineView>, CdxErrorView>
    decreases ls.len(),
{
    if ls.len() == 0 {
        Ok(Seq::empty())
    } else {
        match lines_spec(ls.drop_last()) {
            Err(e) => Err(e),
            Ok(v) => match line_spec(ls.last()) {
                Err(e) => Err(e),
                Ok(x) => Ok(v.push(x)),
            },
        }
    }
}

/// What a CDX answer means: nothing for an empty answer; else the header
/// must come first, the data lines follow, and a trailing resume key is
/// taken apart.
pub open spec fn cdx_response_spec(lines: Seq<Seq<Seq<char>>>) -> Result<Option<CdxDataView>, CdxErrorView> {
    if lines.len() == 0 {
        Ok(None)
    } else {
        let body = body_lines(lines);
        if body.len() == 0 {
            Ok(None)
        } else if body[0] != cdx_header() {
            Err(CdxErrorView::UnexpectedHeader(body[0]))
        } else {
            match lines_spec(body.skip(1)) {
                Err(e) => Err(e),
                Ok(data) => Ok(Some(CdxDataView {
                    data,
                    resume_key: if has_resume_key(lines) { Some(lines.last()[0]) } else { None },
                })),
            }
        }
    }
}

/// Once a prefix of the lines fails, reading all of them fails the same way.
pub proof fn lemma_lines_error_propagates(ls: Seq<Seq<Seq<char>>>, k: int)
    requires
        0 <= k <= ls.len(),
        lines_spec(ls.take(k)) is Err,
    ensures
        lines_spec(ls) == lines_spec(ls.take(k)),
    decreases ls.len(),
{
    if k == ls.len() {
        assert(ls.take(k) == ls);
    } else {
        assert(ls.drop_last().take(k) == ls.take(k));
        lemma_lines_error_propagates(ls.drop_last(), k);
    }
}

/// Reading data lines without error gives one capture per line, each the
/// reading of its line.
pub proof fn lemma_lines_ok(ls: Seq<Seq<Seq<char>>>)
    requires
        lines_spec(ls) is Ok,
    ensures
        lines_spec(ls)->Ok_0.len() == ls.len(),
        forall|i: int| 0 <= i < ls.len() ==> line_spec(#[trigger] ls[i]) == Ok::<CdxLineView, CdxErrorView>(lines_spec(ls)->Ok_0[i]),
    decreases ls.len(),
{
    if ls.len() > 0 {
        let pre = ls.drop_last();
        lemma_lines_ok(pre);
        assert forall|i: int| 0 <= i < ls.len() implies line_spec(#[trigger] ls[i]) == Ok::<CdxLineView, CdxErrorView>(lines_spec(ls)->Ok_0[i]) by {
            if i < ls.len() - 1 {
                assert(ls[i] == pre[i]);
            }
        }
    }
}

/// A CDX answer that reads without error gives exactly one capture per data
/// line (the lines after the header, without a trailing resume key), each
/// the reading of its line, in the same order.
pub proof fn law_one_capture_per_line(lines: Seq<Seq<Seq<char>>>)
    requires
        cdx_response_spec(lines) matches Ok(Some(_)),
    ensures
        ({
            let d = cdx_response_spec(lines)->Ok_0->Some_0;
            let body = body_lines(lines);
            &&& d.data.len() + 1 == body.len()
            &&& body[0] == cdx_header()
            &&& forall|i: int| 0 <= i < d.data.len() ==> line_spec(#[trigger] body[i + 1]) == Ok::<CdxLineView, CdxErrorView>(d.data[i])
            &&& (d.resume_key is Some <==> has_resume_key(lines))
        }),
{
    let body = body_lines(lines);
    let rest = body.skip(1);
    lemma_lines_ok(rest);
    let d = cdx_response_spec(lines)->Ok_0->Some_0;
    assert forall|i: int| 0 <= i < d.data.len() implies line_spec(#[trigger] body[i + 1]) == Ok::<CdxLineView, CdxErrorView>(d.data[i]) by {
        assert(rest[i] == body[i + 1]);
    }
}

/// Whether field `i` of `line` is `lit`.
fn field_is(line: &Vec<String>, i: usize, lit: &str) -> (r: bool)
    requires
        i < line@.len(),
    ensures
        r == (line@[i as int]@ == lit@),
{
    let a = chars_of(line[i].as_str());
    let b = chars_of(lit);
    chars_eq(&a, &b)
}

/// Whether `line` is the CDX column header.
fn is_cdx_header(line: &Vec<String>) -> (r: bool)
    ensures
        r == (line.deep_view() == cdx_header()),
{
    if line.len() != 7 {
        assert(line.deep_view().len() != cdx_header().len());
        return false;
    }
    let r = field_is(line, 0, "urlkey") && field_is(line, 1, "timestamp")
        && field_is(line, 2, "original") && field_is(line, 3, "mimetype")
        && field_is(line, 4, "statuscode") && field_is(line, 5, "digest")
        && field_is(line, 6, "length");
    proof {
        let dv = line.deep_view();
        assert(forall|j: int| 0 <= j < 7 ==> dv[j] == line@[j]@);
        if r {
            assert(dv =~= cdx_header());
        } else if dv == cdx_header() {
            assert(dv[0] == cdx_header()[0]);
            assert(dv[1] == cdx_header()[1]);
            assert(dv[2] == cdx_header()[2]);
            assert(dv[3] == cdx_header()[3]);
            assert(dv[4] == cdx_header()[4]);
            assert(dv[5] == cdx_header()[5]);
            assert(dv[6] == cdx_header()[6]);
        }
    }
    r
}

/// Reads one data line as a capture.
fn parse_line(line: &Vec<String>) -> (r: Result<CdxLine, CdxError>)
    ensures
        match r {
            Ok(l) => line_spec(line.deep_view()) == Ok::<CdxLineView, CdxErrorView>(l@),
            Err(e) => line_spec(line.deep_view()) == Err::<CdxLineView, CdxErrorView>(e@),
        },
{
    let ghost dv = line.deep_view();
    if line.len() != 7 {
        return Err(CdxError::MalformedLine);
    }
    assert(forall|j: int| 0 <= j < 7 ==> dv[j] == line@[j]@);
    let timestamp = match Timestamp::from_wb_ts(line[1].as_str()) {
        Ok(ts) => ts,
        Err(_) => return Err(CdxError::BadTimestamp(line[1].clone())),
    };
    let l = CdxLine {
        url_key: line[0].clone(),
        timestamp,
        original: line[2].clone(),
        mime: line[3].clone(),
        status_code: parse_status_code(line[4].as_str()),
        digest: line[5].clone(),
        length: line[6].clone(),
    };
    assert(line_spec(dv) == Ok::<CdxLineView, CdxErrorView>(l@));
    Ok(l)
}

/// Reads the JSON answer of the CDX server (`output=json`, `showResumeKey`).
pub fn parse_cdx_response(lines: &Vec<Vec<String>>) -> (res: Result<Option<CdxData>, CdxError>)
    ensures
        response_view(res) == cdx_response_spec(lines.deep_view()),
{
    let ghost all = lines.deep_view();
    let n = lines.len();
    if n == 0 {
        return Ok(None);
    }
    assert(forall|j: int| 0 <= j < n ==> all[j] == (#[trigger] lines@[j]).deep_view());
    let has_key = n >= 3 && lines[n - 1].len() == 1 && lines[n - 2].len() == 0;
    assert(has_key == has_resume_key(all));
    let body_len: usize = if has_key { n - 2 } else { n };
    let ghost body = body_lines(all);
    assert(body.len() == body_len);
    assert(forall|j: int| 0 <= j < body_len ==> body[j] == all[j]);
    let resume_key: Option<String> = if has_key { Some(lines[n - 1][0].clone()) } else { None };
    if body_len == 0 {
        return Ok(None);
    }
    if !is_cdx_header(&lines[0]) {
        return Err(CdxError::UnexpectedHeader(lines[0].clone()));
    }
    assert(body[0] == cdx_header());
    let ghost rest = body.skip(1);
    let mut data: Vec<CdxLine> = Vec::new();
    let mut i: usize = 1;
    assert(rest.take(0) =~= Seq::<Seq<Seq<char>>>::empty());
    assert(lines_view(data@) =~= Seq::<CdxLineView>::empty());
    while i < body_len
        invariant
            1 <= i <= body_len,
            body_len <= n,
            n == lines@.len(),
            all == lines.deep_view(),
            rest == body.skip(1),
            body == body_lines(all),
            body.len() == body_len,
            all.len() == n,
            body[0] == cdx_header(),
            has_key == has_resume_key(all),
            resume_key is Some <==> has_key,
            resume_key matches Some(k) ==> k@ == all.last()[0],
            rest.len() == body_len - 1,
            forall|j: int| 0 <= j < body_len ==> body[j] == all[j],
            forall|j: int| 0 <= j < n ==> all[j] == (#[trigger] lines@[j]).deep_view(),
            lines_spec(rest.take(i - 1)) == Ok::<Seq<CdxLineView>, CdxErrorView>(lines_view(data@)),
        decreases body_len - i,
    {
        let ghost k = i - 1;
        assert(rest.take(k + 1).drop_last() == rest.take(k));
        assert(rest.take(k + 1).last() == all[i as int]);
        match parse_line(&lines[i]) {
            Ok(l) => {
                let ghost before = data@;
                let ghost lv = l@;
                data.push(l);
                assert(lines_view(data@) =~= lines_view(before).push(lv));
            },
            Err(e) => {
                proof { lemma_lines_error_propagates(rest, k + 1); }
                return Err(e);
            },
        }
        i = i + 1;
    }
    assert(rest.take(body_len - 1) == rest);
    let r = CdxData { data, resume_key };
    Ok(Some(r))
}

impl CdxOptions {
    /// The raw query that asks for these options: time bounds written as
    /// Wayback timestamps, resume keys on, JSON output.
    pub fn into_raw(self) -> (raw: CdxRawOptions)
        ensures
            raw.url == self.url,
            raw.limit == self.limit,
            raw.from is Some <==> self.from is Some,
            raw.from matches Some(f) ==> f@ == wb_ts_format(self.from.unwrap()@ as i64),
            raw.to is Some <==> self.to is Some,
            raw.to matches Some(t) ==> t@ == wb_ts_format(self.to.unwrap()@ as i64),
            raw.collapse == self.collapse,
            raw.match_type == self.match_type,
            raw.filter == self.filter,
            raw.show_resume_key == Some(true),
            raw.resume_key == self.resume_key,
            raw.output matches Some(o) && o@ == "json"@,
    {
        let from = match &self.from {
            Some(t) => Some(t.to_wb_ts()),
            None => None,
        };
        let to = match &self.to {
            Some(t) => Some(t.to_wb_ts()),
            None => None,
        };
        CdxRawOptions {
            url: self.url,
            limit: self.limit,
            from,
            to,
            collapse: self.collapse,
            match_type: self.match_type,
            show_resume_key: Some(true),
            resume_key: self.resume_key,
            filter: self.filter,
            output: Some(String::from_str("json")),
        }
    }
}

} // verus!
