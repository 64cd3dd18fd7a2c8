//! Choosing captures from a CDX index page: the latest successful capture of
//! every page, or the latest capture of one page.
use vstd::prelude::*;
use crate::cdx::{lines_view, CdxData, CdxLine, CdxLineView};
use crate::status::{is_success, is_success_code};
use crate::text::{chars_of, string_of, trim_prefix_repeated, trim_prefix_repeated_chars};

verus! {

/// Why no captures could be chosen.
#[derive(Clone, Copy, Debug, PartialEq, Eq, Structural)]
pub enum IndexError {
    /// The CDX server returned no index at all.
    NoIndex,
}

/// A capture that the index lists with a success status (200-299); a capture
/// without a status code does not count.
pub open spec fn is_ok_capture(r: CdxLineView) -> bool {
    r.status_code matches Some(c) && is_success_code(c as int)
}

/// Every pick is the index of a successful capture below `bound`.
pub open spec fn picks_valid(rs: Seq<CdxLineView>, idx: Seq<int>, bound: int) -> bool {
    forall|p: int| #![trigger idx[p]] 0 <= p < idx.len() ==> 0 <= idx[p] < bound && is_ok_capture(rs[idx[p]])
}

/// No key is picked twice.
pub open spec fn picks_distinct(ks: Seq<Seq<char>>, idx: Seq<int>) -> bool {
    forall|p: int, q: int| 0 <= p < q < idx.len() ==> ks[#[trigger] idx[p]] != ks[#[trigger] idx[q]]
}

/// Capture `i` of `rs` is a successful one.
pub open spec fn ok_at(rs: Seq<CdxLineView>, i: int) -> bool {
    is_ok_capture(rs[i])
}

/// Every key of a successful capture below `bound` is picked.
pub open spec fn picks_cover(ks: Seq<Seq<char>>, rs: Seq<CdxLineView>, idx: Seq<int>, bound: int) -> bool {
    forall|i: int| 0 <= i < bound && #[trigger] ok_at(rs, i)
        ==> exists|p: int| #![trigger idx[p]] 0 <= p < idx.len() && ks[idx[p]] == ks[i]
}

/// No successful capture below `bound` is later than the pick for its key.
pub open spec fn picks_max(ks: Seq<Seq<char>>, rs: Seq<CdxLineView>, idx: Seq<int>, bound: int) -> bool {
    forall|p: int, i: int| 0 <= p < idx.len() && 0 <= i < bound && is_ok_capture(#[trigger] rs[i])
        && ks[i] == ks[#[trigger] idx[p]] ==> rs[i].timestamp <= rs[idx[p]].timestamp
}

/// Every successful capture before the pick for its key is strictly earlier.
pub open spec fn picks_first(ks: Seq<Seq<char>>, rs: Seq<CdxLineView>, idx: Seq<int>) -> bool {
    forall|p: int, i: int| 0 <= p < idx.len() && 0 <= i < idx[p] && is_ok_capture(#[trigger] rs[i])
        && ks[i] == ks[#[trigger] idx[p]] ==> rs[i].timestamp < rs[idx[p]].timestamp
}

/// `idx` picks, among the first `bound` captures, one capture per key: every
/// pick is a successful capture, no key is picked twice, every key of a
/// successful capture is picked, and the pick for a key is its latest
/// successful capture, the first one among equally late ones.
#[verifier::opaque]
pub open spec fn picks_latest(ks: Seq<Seq<char>>, rs: Seq<CdxLineView>, idx: Seq<int>, bound: int) -> bool {
    &&& picks_valid(rs, idx, bound)
    &&& picks_distinct(ks, idx)
    &&& picks_cover(ks, rs, idx, bound)
    &&& picks_max(ks, rs, idx, bound)
    &&& picks_first(ks, rs, idx)
}

#[verifier::rlimit(40)]
proof fn lemma_skip(ks: Seq<Seq<char>>, rs: Seq<CdxLineView>, iv: Seq<int>, j: int)
    requires
        0 <= j < rs.len(),
        rs.len() == ks.len(),
        picks_latest(ks, rs, iv, j),
        !is_ok_capture(rs[j]),
    ensures
        picks_latest(ks, rs, iv, j + 1),
{
    reveal(picks_latest);
    assert forall|i: int| 0 <= i < j + 1 && #[trigger] ok_at(rs, i)
        implies exists|p: int| #![trigger iv[p]] 0 <= p < iv.len() && ks[iv[p]] == ks[i] by {
        assert(i < j);
    }
}

#[verifier::rlimit(40)]
proof fn lemma_keep(ks: Seq<Seq<char>>, rs: Seq<CdxLineView>, iv: Seq<int>, j: int, p: int)
    requires
        0 <= j < rs.len(),
        rs.len() == ks.len(),
        picks_latest(ks, rs, iv, j),
        is_ok_capture(rs[j]),
        0 <= p < iv.len(),
        ks[iv[p]] == ks[j],
        rs[j].timestamp <= rs[iv[p]].timestamp,
    ensures
        picks_latest(ks, rs, iv, j + 1),
{
    reveal(picks_latest);
    assert forall|i: int| 0 <= i < j + 1 && #[trigger] ok_at(rs, i)
        implies exists|q: int| #![trigger iv[q]] 0 <= q < iv.len() && ks[iv[q]] == ks[i] by {
        if i == j {
            assert(ks[iv[p]] == ks[i]);
        }
    }
    assert forall|q: int, i: int| 0 <= q < iv.len() && 0 <= i < j + 1 && is_ok_capture(#[trigger] rs[i])
        && ks[i] == ks[#[trigger] iv[q]] implies rs[i].timestamp <= rs[iv[q]].timestamp by {
        if i == j && q != p {
            if q < p {
                assert(ks[iv[q]] != ks[iv[p]]);
            } else {
                assert(ks[iv[p]] != ks[iv[q]]);
            }
        }
    }
}

#[verifier::rlimit(40)]
proof fn lemma_replace(ks: Seq<Seq<char>>, rs: Seq<CdxLineView>, iv: Seq<int>, j: int, p: int)
    requires
        0 <= j < rs.len(),
        rs.len() == ks.len(),
        picks_latest(ks, rs, iv, j),
        is_ok_capture(rs[j]),
        0 <= p < iv.len(),
        ks[iv[p]] == ks[j],
        rs[iv[p]].timestamp < rs[j].timestamp,
    ensures
        picks_latest(ks, rs, iv.update(p, j), j + 1),
{
    reveal(picks_latest);
    let nv = iv.update(p, j);
    assert forall|q: int| #![trigger nv[q]] 0 <= q < nv.len() implies 0 <= nv[q] < j + 1 && is_ok_capture(rs[nv[q]]) by {
        if q != p {
            assert(nv[q] == iv[q]);
        }
    }
    assert forall|a: int, b: int| 0 <= a < b < nv.len() implies ks[#[trigger] nv[a]] != ks[#[trigger] nv[b]] by {
        if a == p {
            assert(ks[iv[p]] != ks[iv[b]]);
        } else if b == p {
            assert(ks[iv[a]] != ks[iv[p]]);
        }
    }
    assert forall|i: int| 0 <= i < j + 1 && #[trigger] ok_at(rs, i)
        implies exists|q: int| #![trigger nv[q]] 0 <= q < nv.len() && ks[nv[q]] == ks[i] by {
        if i == j {
            assert(ks[nv[p]] == ks[i]);
        } else {
            assert(ok_at(rs, i));
            let q = choose|q: int| 0 <= q < iv.len() && ks[iv[q]] == ks[i];
            if q == p {
                assert(ks[nv[p]] == ks[i]);
            } else {
                assert(nv[q] == iv[q]);
            }
        }
    }
    assert forall|q: int, i: int| 0 <= q < nv.len() && 0 <= i < j + 1 && is_ok_capture(#[trigger] rs[i])
        && ks[i] == ks[#[trigger] nv[q]] implies rs[i].timestamp <= rs[nv[q]].timestamp by {
        if q == p {
            if i < j {
                assert(rs[i].timestamp <= rs[iv[p]].timestamp);
            }
        } else {
            assert(nv[q] == iv[q]);
            if i == j {
                if q < p {
                    assert(ks[iv[q]] != ks[iv[p]]);
                } else {
                    assert(ks[iv[p]] != ks[iv[q]]);
                }
            }
        }
    }
    assert forall|q: int, i: int| 0 <= q < nv.len() && 0 <= i < nv[q] && is_ok_capture(#[trigger] rs[i])
        && ks[i] == ks[#[trigger] nv[q]] implies rs[i].timestamp < rs[nv[q]].timestamp by {
        if q == p {
            assert(rs[i].timestamp <= rs[iv[p]].timestamp);
        } else {
            assert(nv[q] == iv[q]);
        }
    }
}

#[verifier::rlimit(40)]
proof fn lemma_add(ks: Seq<Seq<char>>, rs: Seq<CdxLineView>, iv: Seq<int>, j: int)
    requires
        0 <= j < rs.len(),
        rs.len() == ks.len(),
        picks_latest(ks, rs, iv, j),
        is_ok_capture(rs[j]),
        forall|q: int| 0 <= q < iv.len() ==> ks[#[trigger] iv[q]] != ks[j],
    ensures
        picks_latest(ks, rs, iv.push(j), j + 1),
{
    reveal(picks_latest);
    let nv = iv.push(j);
    let m = iv.len() as int;
    assert forall|q: int| #![trigger nv[q]] 0 <= q < nv.len() implies 0 <= nv[q] < j + 1 && is_ok_capture(rs[nv[q]]) by {
        if q < m {
            assert(nv[q] == iv[q]);
        } else {
            assert(nv[q] == j);
        }
    }
    assert forall|a: int, b: int| 0 <= a < b < nv.len() implies ks[#[trigger] nv[a]] != ks[#[trigger] nv[b]] by {
        assert(nv[a] == iv[a]);
        if b < m {
            assert(nv[b] == iv[b]);
        }
    }
    assert forall|i: int| 0 <= i < j + 1 && #[trigger] ok_at(rs, i)
        implies exists|q: int| #![trigger nv[q]] 0 <= q < nv.len() && ks[nv[q]] == ks[i] by {
        if i == j {
            assert(nv[m] == j);
        } else {
            assert(ok_at(rs, i));
            let q = choose|q: int| 0 <= q < iv.len() && ks[iv[q]] == ks[i];
            assert(nv[q] == iv[q]);
        }
    }
    assert forall|q: int, i: int| 0 <= q < nv.len() && 0 <= i < j + 1 && is_ok_capture(#[trigger] rs[i])
        && ks[i] == ks[#[trigger] nv[q]] implies rs[i].timestamp <= rs[nv[q]].timestamp by {
        if q < m {
            assert(nv[q] == iv[q]);
            if i == j {
                assert(ks[iv[q]] != ks[j]);
            }
        } else if i < j {
            assert(ok_at(rs, i));
            let r = choose|r: int| 0 <= r < iv.len() && ks[iv[r]] == ks[i];
            assert(ks[iv[r]] != ks[j]);
        }
    }
    assert forall|q: int, i: int| 0 <= q < nv.len() && 0 <= i < nv[q] && is_ok_capture(#[trigger] rs[i])
        && ks[i] == ks[#[trigger] nv[q]] implies rs[i].timestamp < rs[nv[q]].timestamp by {
        if q < m {
            assert(nv[q] == iv[q]);
        } else {
            assert(ok_at(rs, i));
            let r = choose|r: int| 0 <= r < iv.len() && ks[iv[r]] == ks[i];
            assert(ks[iv[r]] != ks[j]);
        }
    }
}

/// Chooses, for every key among the successful captures, its latest one
/// (`keys[i]` is the key of `recs[i]`); a later capture replaces the chosen
/// one only when it is strictly later.
pub fn latest_indices(keys: &Vec<String>, recs: &Vec<CdxLine>) -> (idx: Vec<usize>)
    requires
        keys@.len() == recs@.len(),
    ensures
        picks_latest(keys.deep_view(), lines_view(recs@), idx@.map_values(|x: usize| x as int), recs@.len() as int),
{
    let ghost ks = keys.deep_view();
    let ghost rs = lines_view(recs@);
    let mut idx: Vec<usize> = Vec::new();
    let n = recs.len();
    assert(idx@.map_values(|x: usize| x as int) =~= Seq::<int>::empty());
    assert(picks_latest(ks, rs, Seq::<int>::empty(), 0)) by {
        reveal(picks_latest);
    }
    for j in 0..n
        invariant
            n == recs@.len(),
            n == keys@.len(),
            ks == keys.deep_view(),
            rs == lines_view(recs@),
            picks_latest(ks, rs, idx@.map_values(|x: usize| x as int), j as int),
    {
        let ghost iv = idx@.map_values(|x: usize| x as int);
        assert(rs[j as int] == recs@[j as int]@);
        assert(forall|q: int| 0 <= q < iv.len() ==> 0 <= #[trigger] iv[q] < j) by {
            reveal(picks_latest);
        }
        let ok = match recs[j].status_code {
            Some(c) => is_success(c),
            None => false,
        };
        if ok {
            let m = idx.len();
            let mut p: usize = 0;
            let mut found = false;
            while p < m && !found
                invariant
                    m == idx@.len(),
                    p <= m,
                    n == recs@.len(),
                    n == keys@.len(),
                    j < n,
                    iv == idx@.map_values(|x: usize| x as int),
                    forall|q: int| 0 <= q < iv.len() ==> 0 <= #[trigger] iv[q] < j,
                    ks == keys.deep_view(),
                    !found ==> forall|q: int| 0 <= q < p ==> ks[#[trigger] iv[q]] != ks[j as int],
                    found ==> p < m && ks[iv[p as int]] == ks[j as int],
                decreases m - p + (if found { 0int } else { 1int }),
            {
                let at = idx[p];
                assert(iv[p as int] == at as int);
                assert(ks[at as int] == keys@[at as int]@);
                assert(ks[j as int] == keys@[j as int]@);
                if keys[at] == keys[j] {
                    found = true;
                } else {
                    p = p + 1;
                }
            }
            if found {
                let at = idx[p];
                assert(iv[p as int] == at as int);
                assert(rs[at as int] == recs@[at as int]@);
                if recs[at].timestamp.is_before(&recs[j].timestamp) {
                    idx.set(p, j);
                    proof { lemma_replace(ks, rs, iv, j as int, p as int); }
                    assert(idx@.map_values(|x: usize| x as int) =~= iv.update(p as int, j as int));
                } else {
                    proof { lemma_keep(ks, rs, iv, j as int, p as int); }
                }
            } else {
                idx.push(j);
                proof { lemma_add(ks, rs, iv, j as int); }
                assert(idx@.map_values(|x: usize| x as int) =~= iv.push(j as int));
            }
        } else {
            proof { lemma_skip(ks, rs, iv, j as int); }
        }
    }
    idx
}


/// `entries` lists, once per key, the latest successful capture of that key
/// (`keys[i]` is the key of `recs[i]`), each with its key.
pub open spec fn is_latest_index(
    keys: Seq<Seq<char>>,
    recs: Seq<CdxLineView>,
    entries: Seq<(Seq<char>, CdxLineView)>,
) -> bool {
    exists|idx: Seq<int>|
        #![trigger picks_latest(keys, recs, idx, recs.len() as int)]
        {
            &&& picks_latest(keys, recs, idx, recs.len() as int)
            &&& entries.len() == idx.len()
            &&& forall|p: int| 0 <= p < idx.len() ==> #[trigger] entries[p] == (keys[idx[p]], recs[idx[p]])
        }
}

/// The entries, as plain values.
pub open spec fn entries_view(v: Seq<(String, CdxLine)>) -> Seq<(Seq<char>, CdxLineView)> {
    v.map_values(|e: (String, CdxLine)| (e.0@, e.1@))
}

/// Capture `i` is the one chosen for entry `e`, with its key.
pub open spec fn entry_of(keys: Seq<Seq<char>>, recs: Seq<CdxLineView>, e: (Seq<char>, CdxLineView), i: int) -> bool {
    0 <= i < recs.len() && e.0 == keys[i] && e.1 == recs[i]
}

/// Entry `e` is one of the captures, with its key.
pub open spec fn from_some_capture(keys: Seq<Seq<char>>, recs: Seq<CdxLineView>, e: (Seq<char>, CdxLineView)) -> bool {
    exists|i: int| entry_of(keys, recs, e, i)
}

/// Every entry chosen by `idx` is one of the captures with its key.
proof fn lemma_entries_from_recs(
    keys: Seq<Seq<char>>,
    recs: Seq<CdxLineView>,
    entries: Seq<(Seq<char>, CdxLineView)>,
    idx: Seq<int>,
)
    requires
        keys.len() == recs.len(),
        forall|p: int| 0 <= p < idx.len() ==> 0 <= #[trigger] idx[p] < recs.len(),
        entries.len() == idx.len(),
        forall|p: int| 0 <= p < idx.len() ==> #[trigger] entries[p] == (keys[idx[p]], recs[idx[p]]),
    ensures
        forall|p: int| 0 <= p < entries.len() ==> from_some_capture(keys, recs, #[trigger] entries[p]),
{
    assert forall|p: int| 0 <= p < entries.len() implies from_some_capture(keys, recs, #[trigger] entries[p]) by {
        let i = idx[p];
        assert(entry_of(keys, recs, entries[p], i));
    }
}

/// What `get_latest_pages_index` promises of its map: every page appears once,
/// only successful captures are kept, every page with a successful capture is
/// there, and the capture kept for a page is not older than any other
/// successful capture of it (the first of equally late ones).
#[verifier::rlimit(80)]
pub proof fn law_latest_index(keys: Seq<Seq<char>>, recs: Seq<CdxLineView>, entries: Seq<(Seq<char>, CdxLineView)>)
    requires
        keys.len() == recs.len(),
        is_latest_index(keys, recs, entries),
    ensures
        forall|p: int, q: int| 0 <= p < q < entries.len() ==> (#[trigger] entries[p]).0 != (#[trigger] entries[q]).0,
        forall|p: int| 0 <= p < entries.len() ==> is_ok_capture((#[trigger] entries[p]).1),
        forall|i: int| 0 <= i < recs.len() && is_ok_capture(#[trigger] recs[i])
            ==> exists|p: int| 0 <= p < entries.len() && (#[trigger] entries[p]).0 == keys[i],
        forall|p: int, i: int| 0 <= p < entries.len() && 0 <= i < recs.len() && is_ok_capture(#[trigger] recs[i])
            && keys[i] == (#[trigger] entries[p]).0 ==> recs[i].timestamp <= entries[p].1.timestamp,
        forall|p: int| 0 <= p < entries.len() ==> from_some_capture(keys, recs, #[trigger] entries[p]),
{
    reveal(picks_latest);
    let idx = choose|idx: Seq<int>| {
        &&& #[trigger] picks_latest(keys, recs, idx, recs.len() as int)
        &&& entries.len() == idx.len()
        &&& forall|p: int| 0 <= p < idx.len() ==> #[trigger] entries[p] == (keys[idx[p]], recs[idx[p]])
    };
    assert forall|p: int, q: int| 0 <= p < q < entries.len() implies (#[trigger] entries[p]).0 != (#[trigger] entries[q]).0 by {
        assert(entries[p] == (keys[idx[p]], recs[idx[p]]));
        assert(entries[q] == (keys[idx[q]], recs[idx[q]]));
    }
    assert forall|p: int| 0 <= p < entries.len() implies is_ok_capture((#[trigger] entries[p]).1) by {
        assert(entries[p] == (keys[idx[p]], recs[idx[p]]));
    }
    assert forall|i: int| 0 <= i < recs.len() && is_ok_capture(#[trigger] recs[i])
        implies exists|p: int| 0 <= p < entries.len() && (#[trigger] entries[p]).0 == keys[i] by {
        assert(ok_at(recs, i));
        let p = choose|p: int| #![trigger idx[p]] 0 <= p < idx.len() && keys[idx[p]] == keys[i];
        assert(entries[p] == (keys[idx[p]], recs[idx[p]]));
    }
    assert forall|p: int, i: int| 0 <= p < entries.len() && 0 <= i < recs.len() && is_ok_capture(#[trigger] recs[i])
        && keys[i] == (#[trigger] entries[p]).0 implies recs[i].timestamp <= entries[p].1.timestamp by {
        assert(entries[p] == (keys[idx[p]], recs[idx[p]]));
    }
    lemma_entries_from_recs(keys, recs, entries, idx);
}

impl CdxLine {
    /// A copy of this capture.
    pub fn duplicate(&self) -> (r: CdxLine)
        ensures
            r@ == self@,
    {
        CdxLine {
            url_key: self.url_key.clone(),
            timestamp: self.timestamp,
            original: self.original.clone(),
            mime: self.mime.clone(),
            status_code: self.status_code,
            digest: self.digest.clone(),
            length: self.length.clone(),
        }
    }
}

/// The latest successful capture for every key, each with its key
/// (`keys[i]` is the key of `recs[i]`).
pub fn latest_by_key(keys: &Vec<String>, recs: &Vec<CdxLine>) -> (entries: Vec<(String, CdxLine)>)
    requires
        keys@.len() == recs@.len(),
    ensures
        is_latest_index(keys.deep_view(), lines_view(recs@), entries_view(entries@)),
{
    let idx = latest_indices(keys, recs);
    let ghost iv = idx@.map_values(|x: usize| x as int);
    let ghost ks = keys.deep_view();
    let ghost rs = lines_view(recs@);
    assert(forall|q: int| 0 <= q < iv.len() ==> 0 <= #[trigger] iv[q] < recs@.len()) by {
        reveal(picks_latest);
    }
    let mut entries: Vec<(String, CdxLine)> = Vec::new();
    let m = idx.len();
    for p in 0..m
        invariant
            m == idx@.len(),
            iv == idx@.map_values(|x: usize| x as int),
            ks == keys.deep_view(),
            rs == lines_view(recs@),
            keys@.len() == recs@.len(),
            forall|q: int| 0 <= q < iv.len() ==> 0 <= #[trigger] iv[q] < recs@.len(),
            entries@.len() == p,
            forall|q: int| 0 <= q < p ==> #[trigger] entries_view(entries@)[q] == (ks[iv[q]], rs[iv[q]]),
    {
        let at = idx[p];
        assert(iv[p as int] == at as int);
        let e = (keys[at].clone(), recs[at].duplicate());
        assert(ks[at as int] == keys@[at as int]@);
        assert(rs[at as int] == recs@[at as int]@);
        let ghost before = entries@;
        entries.push(e);
        assert forall|q: int| 0 <= q < p + 1 implies #[trigger] entries_view(entries@)[q] == (ks[iv[q]], rs[iv[q]]) by {
            if q < p {
                assert(entries@[q] == before[q]);
                assert(entries_view(before)[q] == (ks[iv[q]], rs[iv[q]]));
                assert(entries_view(entries@)[q] == entries_view(before)[q]);
            } else {
                assert(entries@[q] == e);
            }
        }
    }
    assert(is_latest_index(ks, rs, entries_view(entries@))) by {
        assert(picks_latest(ks, rs, iv, rs.len() as int));
    }
    entries
}

/// The captures of `recs`, their `original` addresses as keys.
pub open spec fn originals(recs: Seq<CdxLineView>) -> Seq<Seq<char>> {
    recs.map_values(|r: CdxLineView| r.original)
}

/// Get the latest index of pages from the web archive: from the index page
/// that the CDX server returned (none is an error), the latest successful
/// capture of every original address.
pub fn get_latest_pages_index(index: Option<CdxData>) -> (res: Result<Vec<(String, CdxLine)>, IndexError>)
    ensures
        index is None ==> res == Err::<Vec<(String, CdxLine)>, IndexError>(IndexError::NoIndex),
        index matches Some(d) ==> (res matches Ok(entries)
            && is_latest_index(originals(lines_view(d.data@)), lines_view(d.data@), entries_view(entries@))),
{
    match index {
        None => Err(IndexError::NoIndex),
        Some(d) => {
            let mut keys: Vec<String> = Vec::new();
            let n = d.data.len();
            for i in 0..n
                invariant
                    n == d.data@.len(),
                    keys@.len() == i,
                    forall|j: int| 0 <= j < i ==> #[trigger] keys@[j]@ == d.data@[j].original@,
            {
                keys.push(d.data[i].original.clone());
            }
            assert(keys.deep_view() =~= originals(lines_view(d.data@)));
            let entries = latest_by_key(&keys, &d.data);
            Ok(entries)
        },
    }
}

/// `s` without its `http://` and then `https://` prefixes (each removed as
/// often as it repeats), as the command-line downloader keys pages.
pub open spec fn without_protocol(s: Seq<char>) -> Seq<char> {
    trim_prefix_repeated(trim_prefix_repeated(s, "http://"@), "https://"@)
}

/// `url` without its `http://` and `https://` prefixes.
pub fn url_without_protocol(url: &str) -> (r: String)
    ensures
        r@ == without_protocol(url@),
{
    let cs = chars_of(url);
    let http = chars_of("http://");
    let https = chars_of("https://");
    proof {
        reveal_strlit("http://");
        reveal_strlit("https://");
    }
    let a = trim_prefix_repeated_chars(&cs, &http);
    let b = trim_prefix_repeated_chars(&a, &https);
    string_of(&b)
}

/// The captures of `recs`, keyed by address without protocol.
pub open spec fn addresses(recs: Seq<CdxLineView>) -> Seq<Seq<char>> {
    recs.map_values(|r: CdxLineView| without_protocol(r.original))
}

/// The latest successful capture of every address, `http://` and `https://`
/// captures of the same address counting as one page.
pub fn latest_pages_by_address(index: Option<CdxData>) -> (res: Result<Vec<(String, CdxLine)>, IndexError>)
    ensures
        index is None ==> res == Err::<Vec<(String, CdxLine)>, IndexError>(IndexError::NoIndex),
        index matches Some(d) ==> (res matches Ok(entries)
            && is_latest_index(addresses(lines_view(d.data@)), lines_view(d.data@), entries_view(entries@))),
{
    match index {
        None => Err(IndexError::NoIndex),
        Some(d) => {
            let mut keys: Vec<String> = Vec::new();
            let n = d.data.len();
            for i in 0..n
                invariant
                    n == d.data@.len(),
                    keys@.len() == i,
                    forall|j: int| 0 <= j < i ==> #[trigger] keys@[j]@ == without_protocol(d.data@[j].original@),
            {
                keys.push(url_without_protocol(d.data[i].original.as_str()));
            }
            assert(keys.deep_view() =~= addresses(lines_view(d.data@)));
            let entries = latest_by_key(&keys, &d.data);
            Ok(entries)
        },
    }
}

/// The capture chosen by `Iterator::max_by` on timestamps: the last of the
/// latest ones.
pub open spec fn is_last_latest(recs: Seq<CdxLineView>, i: int) -> bool {
    &&& 0 <= i < recs.len()
    &&& forall|j: int| 0 <= j < recs.len() ==> (#[trigger] recs[j]).timestamp <= recs[i].timestamp
    &&& forall|j: int| i < j < recs.len() ==> (#[trigger] recs[j]).timestamp < recs[i].timestamp
}

/// The latest capture of the index page (of whatever status), the last one
/// among equally late ones; none for an empty page; an error when the CDX
/// server returned no index.
pub fn get_latest_page_cdx(index: Option<CdxData>) -> (res: Result<Option<CdxLine>, IndexError>)
    ensures
        index is None ==> res == Err::<Option<CdxLine>, IndexError>(IndexError::NoIndex),
        index matches Some(d) ==> (res matches Ok(found) && (found is None <==> d.data@.len() == 0)
            && (found matches Some(l) ==> exists|i: int| is_last_latest(lines_view(d.data@), i)
                && #[trigger] lines_view(d.data@)[i] == l@)),
{
    match index {
        None => Err(IndexError::NoIndex),
        Some(d) => {
            let n = d.data.len();
            if n == 0 {
                return Ok(None);
            }
            let ghost rs = lines_view(d.data@);
            let mut best: usize = 0;
            for i in 1..n
                invariant
                    n == d.data@.len(),
                    rs == lines_view(d.data@),
                    0 <= best < i,
                    forall|j: int| 0 <= j < i ==> (#[trigger] rs[j]).timestamp <= rs[best as int].timestamp,
                    forall|j: int| best < j < i ==> (#[trigger] rs[j]).timestamp < rs[best as int].timestamp,
            {
                assert(rs[i as int] == d.data@[i as int]@);
                assert(rs[best as int] == d.data@[best as int]@);
                if !d.data[i].timestamp.is_before(&d.data[best].timestamp) {
                    best = i;
                }
            }
            let l = d.data[best].duplicate();
            assert(is_last_latest(rs, best as int));
            Ok(Some(l))
        },
    }
}

} // verus!
