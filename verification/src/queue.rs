//! The download queue: what a download request enqueues, how a finished
//! task is recorded, and the queue statistics.
use vstd::prelude::*;
use crate::calendar::in_range;
use crate::cdx::{lines_view, CdxLine, CdxLineView};
use crate::download::{DownloadResult, DownloadResultView};
use crate::status::{is_valid_status_code, valid_status_code};
use crate::timestamp::{parse_timestamp_spec, Timestamp, TimestampError};

verus! {

/// Whether one page or a whole site is downloaded.
#[derive(Clone, Copy, Debug, PartialEq, Eq, Structural)]
pub enum DownloadType {
    Single,
    Batch,
}

/// A download request.
#[derive(Debug)]
pub struct DownloadOption {
    pub mode: DownloadType,
    pub url: String,
    pub from: Option<Timestamp>,
    pub to: Option<Timestamp>,
}

/// The state of a queued task.
#[derive(Clone, Copy, Debug, PartialEq, Eq, Structural)]
pub enum DownloadStatus {
    Pending,
    Downloading,
    Success,
    Failed,
    Skipped,
}

/// The UNIX time a bound text stands for, if it is given and valid.
pub open spec fn bound_spec(v: Option<String>) -> Option<Option<int>> {
    match v {
        None => Some(None),
        Some(s) => match parse_timestamp_spec(s@) {
            Some(t) => Some(Some(t)),
            None => None,
        },
    }
}

/// Reads an optional time bound.
fn parse_bound(v: Option<String>) -> (r: Result<Option<Timestamp>, TimestampError>)
    ensures
        match bound_spec(v) {
            None => r == Err::<Option<Timestamp>, TimestampError>(TimestampError::Invalid),
            Some(None) => r matches Ok(None),
            Some(Some(t)) => r matches Ok(Some(ts)) && ts@ == t,
        },
{
    match v {
        None => Ok(None),
        Some(s) => match Timestamp::from_str(s.as_str()) {
            Ok(ts) => Ok(Some(ts)),
            Err(e) => Err(e),
        },
    }
}

/// The GraphQL mutations.
#[derive(Clone, Copy, Debug, Default)]
pub struct MutationRoot;

impl MutationRoot {
    /// The request `downloadSite` enqueues: the whole site under `url_part`,
    /// between the given bounds (each a `YYYY`, `YYYYMMDD` or
    /// `YYYYMMDDhhmmss` text); an invalid bound refuses the request.
    pub fn download_site(&self, url_part: String, from: Option<String>, to: Option<String>) -> (res: Result<DownloadOption, TimestampError>)
        ensures
            bound_spec(from) is None ==> res == Err::<DownloadOption, TimestampError>(TimestampError::Invalid),
            bound_spec(from) is Some && bound_spec(to) is None ==> res == Err::<DownloadOption, TimestampError>(TimestampError::Invalid),
            bound_spec(from) is Some && bound_spec(to) is Some ==> (res matches Ok(o)
                && o.mode == DownloadType::Batch
                && o.url == url_part
                && (match o.from { Some(t) => Some(t@), None => None }) == bound_spec(from).unwrap()
                && (match o.to { Some(t) => Some(t@), None => None }) == bound_spec(to).unwrap()),
    {
        let from = parse_bound(from)?;
        let to = parse_bound(to)?;
        Ok(DownloadOption { mode: DownloadType::Batch, url: url_part, from, to })
    }
}

/// The record of a download request: its address, kind, bounds (UNIX time)
/// and why it failed, if it did.
#[derive(Debug)]
pub struct QueueGroup {
    pub url: String,
    pub download_type: DownloadType,
    pub failed: Option<String>,
    pub from: Option<i64>,
    pub to: Option<i64>,
}

/// The record of one queued capture.
#[derive(Debug)]
pub struct QueueTask {
    pub url: String,
    pub download_status: DownloadStatus,
    pub message: Option<String>,
    pub mime: String,
    pub timestamp: i64,
    pub status_code: Option<i32>,
}

/// What fetching the index for a request came to.
#[derive(Debug)]
pub enum QueueFill {
    /// The request's group, and its tasks (all pending).
    Tasks(QueueGroup, Vec<QueueTask>),
    /// The request's group, marked failed.
    Failed(QueueGroup),
}

/// The captures a request downloads, as the index lookup gave them: for a
/// batch, no captures at all counts as none found.
pub fn batch_captures(entries: Vec<(String, CdxLine)>) -> (r: Option<Vec<CdxLine>>)
    ensures
        entries@.len() == 0 ==> r is None,
        entries@.len() > 0 ==> (r matches Some(v)
            && lines_view(v@) == entries@.map_values(|e: (String, CdxLine)| e.1@)),
{
    if entries.len() == 0 {
        return None;
    }
    let mut v: Vec<CdxLine> = Vec::new();
    let n = entries.len();
    for i in 0..n
        invariant
            n == entries@.len(),
            v@.len() == i,
            forall|j: int| 0 <= j < i ==> #[trigger] v@[j]@ == entries@[j].1@,
    {
        v.push(entries[i].1.duplicate());
    }
    assert(lines_view(v@) =~= entries@.map_values(|e: (String, CdxLine)| e.1@));
    Some(v)
}

/// The capture of a single-page request, if one was found.
pub fn single_capture(found: Option<CdxLine>) -> (r: Option<Vec<CdxLine>>)
    ensures
        found is None ==> r is None,
        found matches Some(l) ==> (r matches Some(v) && v@.len() == 1 && v@[0]@ == l@),
{
    match found {
        None => None,
        Some(l) => {
            let mut v: Vec<CdxLine> = Vec::new();
            v.push(l);
            Some(v)
        },
    }
}

/// The group record of a request.
fn group_record(opts: &DownloadOption, failed: Option<String>) -> (g: QueueGroup)
    ensures
        g.url@ == opts.url@,
        g.download_type == opts.mode,
        g.failed == failed,
        g.from == (match opts.from { Some(t) => Some(t@ as i64), None => None }),
        g.to == (match opts.to { Some(t) => Some(t@ as i64), None => None }),
{
    QueueGroup {
        url: opts.url.clone(),
        download_type: opts.mode,
        failed,
        from: match &opts.from { Some(t) => Some(t.unix_time()), None => None },
        to: match &opts.to { Some(t) => Some(t.unix_time()), None => None },
    }
}

/// A queued task of a capture: its address, MIME type, UNIX time and status
/// code; pending, with no message.
pub open spec fn task_of(l: CdxLineView, t: QueueTask) -> bool {
    &&& t.url@ == l.original
    &&& t.download_status == DownloadStatus::Pending
    &&& t.message is None
    &&& t.mime@ == l.mime
    &&& t.timestamp as int == l.timestamp
    &&& t.status_code == (match l.status_code { Some(c) => Some(c as i32), None => None })
}

/// A queued task carries its capture unchanged, whatever the capture: the
/// task of a capture has the capture's address, MIME type, UNIX time and
/// status code, and starts pending with no message.
pub proof fn law_task_keeps_capture(l: CdxLineView, t: QueueTask)
    requires
        task_of(l, t),
    ensures
        t.url@ == l.original,
        t.mime@ == l.mime,
        t.timestamp as int == l.timestamp,
        l.status_code matches Some(c) ==> t.status_code == Some(c as i32),
        l.status_code is None ==> t.status_code is None,
        t.download_status == DownloadStatus::Pending,
        t.message is None,
{
}

/// What a request enqueues once its index was looked up: a failed group if
/// the lookup failed (`Failed to fetch index`) or found nothing (`No pages
/// found`); otherwise its group and one pending task per capture.
pub fn queue_fill(opts: &DownloadOption, fetched: Result<Option<Vec<CdxLine>>, ()>) -> (r: QueueFill)
    ensures
        fetched is Err ==> (r matches QueueFill::Failed(g) && g.failed matches Some(m) && m@ == "Failed to fetch index"@),
        fetched matches Ok(None) ==> (r matches QueueFill::Failed(g) && g.failed matches Some(m) && m@ == "No pages found"@),
        fetched matches Ok(Some(v)) ==> (r matches QueueFill::Tasks(g, ts) && g.failed is None
            && ts@.len() == v@.len() && forall|i: int| 0 <= i < v@.len() ==> task_of(#[trigger] v@[i]@, ts@[i])),
        fetched matches Ok(Some(v)) ==> (r matches QueueFill::Tasks(_, ts) && forall|i: int| 0 <= i < v@.len() ==>
            (#[trigger] ts@[i]).mime@ == v@[i]@.mime && ts@[i].url@ == v@[i]@.original
            && ts@[i].timestamp as int == v@[i]@.timestamp && ts@[i].download_status == DownloadStatus::Pending),
        match r {
            QueueFill::Tasks(g, _) => g.url@ == opts.url@ && g.download_type == opts.mode
                && g.from == (match opts.from { Some(t) => Some(t@ as i64), None => None })
                && g.to == (match opts.to { Some(t) => Some(t@ as i64), None => None }),
            QueueFill::Failed(g) => g.url@ == opts.url@ && g.download_type == opts.mode
                && g.from == (match opts.from { Some(t) => Some(t@ as i64), None => None })
                && g.to == (match opts.to { Some(t) => Some(t@ as i64), None => None }),
        },
{
    match fetched {
        Err(()) => QueueFill::Failed(group_record(opts, Some(String::from_str("Failed to fetch index")))),
        Ok(None) => QueueFill::Failed(group_record(opts, Some(String::from_str("No pages found")))),
        Ok(Some(v)) => {
            let mut tasks: Vec<QueueTask> = Vec::new();
            let n = v.len();
            for i in 0..n
                invariant
                    n == v@.len(),
                    tasks@.len() == i,
                    forall|j: int| 0 <= j < i ==> task_of(#[trigger] v@[j]@, tasks@[j]),
            {
                let l = &v[i];
                let t = QueueTask {
                    url: l.original.clone(),
                    download_status: DownloadStatus::Pending,
                    message: None,
                    mime: l.mime.clone(),
                    timestamp: l.timestamp.unix_time(),
                    status_code: match l.status_code { Some(c) => Some(c as i32), None => None },
                };
                tasks.push(t);
            }
            QueueFill::Tasks(group_record(opts, None), tasks)
        },
    }
}

/// Why a queued task cannot be downloaded.
#[derive(Clone, Copy, Debug, PartialEq, Eq, Structural)]
pub enum TaskInputError {
    /// Failed to parse timestamp.
    Timestamp,
    /// Failed to parse status code.
    StatusCode,
}

/// Reads back a queued task's UNIX time and status code (the status code
/// as stored is cut to 16 bits, then must be 100 to 999).
pub fn task_download_inputs(timestamp: i64, status_code: Option<i32>) -> (res: Result<(Timestamp, Option<u16>), TaskInputError>)
    ensures
        !in_range(timestamp as int) ==> res == Err::<(Timestamp, Option<u16>), TaskInputError>(TaskInputError::Timestamp),
        in_range(timestamp as int) && (status_code matches Some(v) && !valid_status_code(v as u16 as int))
            ==> res == Err::<(Timestamp, Option<u16>), TaskInputError>(TaskInputError::StatusCode),
        in_range(timestamp as int) && !(status_code matches Some(v) && !valid_status_code(v as u16 as int))
            ==> (res matches Ok((t, c)) && t@ == timestamp
                && c == (match status_code { Some(v) => Some(v as u16), None => None })),
{
    let ts = Timestamp::from_unix_time(timestamp);
    let code: Result<Option<u16>, ()> = match status_code {
        None => Ok(None),
        Some(v) => {
            let c = v as u16;
            if is_valid_status_code(c) { Ok(Some(c)) } else { Err(()) }
        },
    };
    match (ts, code) {
        (Ok(t), Ok(c)) => Ok((t, c)),
        (Err(_), _) => Err(TaskInputError::Timestamp),
        (_, Err(())) => Err(TaskInputError::StatusCode),
    }
}

/// How a finished download is recorded: done is a success without message;
/// skipped or already-present captures are skipped, with their message; an
/// error fails the task with the error's text.
pub fn task_outcome(res: Result<DownloadResult, String>) -> (r: (Option<String>, DownloadStatus))
    ensures
        res matches Ok(d) ==> match d@ {
            DownloadResultView::Done => r.0 is None && r.1 == DownloadStatus::Success,
            DownloadResultView::Skipped(m) => r.0 matches Some(s) && s@ == m && r.1 == DownloadStatus::Skipped,
            DownloadResultView::FixDb(m) => r.0 matches Some(s) && s@ == m && r.1 == DownloadStatus::Skipped,
        },
        res matches Err(e) ==> r.0 == Some(e) && r.1 == DownloadStatus::Failed,
{
    match res {
        Ok(DownloadResult::Done) => (None, DownloadStatus::Success),
        Ok(DownloadResult::Skipped(s)) => (Some(s), DownloadStatus::Skipped),
        Ok(DownloadResult::FixDb(s)) => (Some(s), DownloadStatus::Skipped),
        Err(e) => (Some(e), DownloadStatus::Failed),
    }
}

/// What the task executor found when it looked for a pending task.
#[derive(Clone, Copy, Debug, PartialEq, Eq, Structural)]
pub enum QueuePoll {
    /// A pending task, and whether its group exists.
    Pending { has_group: bool },
    /// No pending task.
    Empty,
    /// The query failed.
    QueryFailed,
}

/// What the task executor does next.
#[derive(Clone, Copy, Debug, PartialEq, Eq, Structural)]
pub enum ExecutorAction {
    /// Mark the task as downloading and start it.
    Start,
    /// Log the task without group and look again.
    SkipOrphan,
    /// Wait for the next new-task notice.
    Sleep,
    /// Wait a second and look again.
    Retry,
}

/// A pending task with a group is started; one without is skipped; with
/// nothing pending the executor waits for new tasks; a failed query is
/// retried.
pub fn executor_step(poll: QueuePoll) -> (r: ExecutorAction)
    ensures
        poll == (QueuePoll::Pending { has_group: true }) ==> r == ExecutorAction::Start,
        poll == (QueuePoll::Pending { has_group: false }) ==> r == ExecutorAction::SkipOrphan,
        poll == QueuePoll::Empty ==> r == ExecutorAction::Sleep,
        poll == QueuePoll::QueryFailed ==> r == ExecutorAction::Retry,
{
    match poll {
        QueuePoll::Pending { has_group } => if has_group { ExecutorAction::Start } else { ExecutorAction::SkipOrphan },
        QueuePoll::Empty => ExecutorAction::Sleep,
        QueuePoll::QueryFailed => ExecutorAction::Retry,
    }
}

/// The number of tasks in each state.
#[derive(Clone, Copy, Debug, Default, PartialEq, Eq, Structural)]
pub struct DownloadStats {
    pub pending: i32,
    pub downloading: i32,
    pub success: i32,
    pub failed: i32,
    pub skipped: i32,
}

/// The count given for `status` by the last row that has one, else 0.
pub open spec fn count_for(rows: Seq<(DownloadStatus, i32)>, status: DownloadStatus) -> i32
    decreases rows.len(),
{
    if rows.len() == 0 {
        0
    } else if rows.last().0 == status {
        rows.last().1
    } else {
        count_for(rows.drop_last(), status)
    }
}

/// Each row's count goes to its own status: with no rows every status
/// counts 0; a row `(s, c)` added last makes `s` count `c` and leaves every
/// other status as it was.
pub proof fn law_count_goes_to_its_status(
    rows: Seq<(DownloadStatus, i32)>,
    s: DownloadStatus,
    c: i32,
    other: DownloadStatus,
)
    ensures
        count_for(Seq::<(DownloadStatus, i32)>::empty(), other) == 0,
        count_for(rows.push((s, c)), s) == c,
        other != s ==> count_for(rows.push((s, c)), other) == count_for(rows, other),
{
    assert(rows.push((s, c)).drop_last() =~= rows);
}

impl DownloadStats {
    /// The statistics from per-state counts (grouped query rows); a state
    /// without row counts 0.
    pub fn from_counts(rows: &Vec<(DownloadStatus, i32)>) -> (r: DownloadStats)
        ensures
            r.pending == count_for(rows@, DownloadStatus::Pending),
            r.downloading == count_for(rows@, DownloadStatus::Downloading),
            r.success == count_for(rows@, DownloadStatus::Success),
            r.failed == count_for(rows@, DownloadStatus::Failed),
            r.skipped == count_for(rows@, DownloadStatus::Skipped),
    {
        let mut stats = DownloadStats { pending: 0, downloading: 0, success: 0, failed: 0, skipped: 0 };
        let n = rows.len();
        for i in 0..n
            invariant
                n == rows@.len(),
                stats.pending == count_for(rows@.take(i as int), DownloadStatus::Pending),
                stats.downloading == count_for(rows@.take(i as int), DownloadStatus::Downloading),
                stats.success == count_for(rows@.take(i as int), DownloadStatus::Success),
                stats.failed == count_for(rows@.take(i as int), DownloadStatus::Failed),
                stats.skipped == count_for(rows@.take(i as int), DownloadStatus::Skipped),
        {
            let (s, c) = rows[i];
            assert(rows@.take(i + 1).drop_last() == rows@.take(i as int));
            assert(rows@.take(i + 1).last() == rows@[i as int]);
            match s {
                DownloadStatus::Pending => stats.pending = c,
                DownloadStatus::Downloading => stats.downloading = c,
                DownloadStatus::Success => stats.success = c,
                DownloadStatus::Failed => stats.failed = c,
                DownloadStatus::Skipped => stats.skipped = c,
            }
        }
        assert(rows@.take(n as int) == rows@);
        stats
    }
}

} // verus!
