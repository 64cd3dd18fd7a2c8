use archivehost::cdx::CdxLine;
use archivehost::download::DownloadResult;
use archivehost::queue::{
    batch_captures, executor_step, queue_fill, single_capture, task_download_inputs, task_outcome, DownloadOption,
    DownloadStats, DownloadStatus, DownloadType, ExecutorAction, MutationRoot, QueueFill, QueuePoll, TaskInputError,
};
use archivehost::timestamp::{Timestamp, TimestampError};

fn line(original: &str, t: i64, status: Option<u16>) -> CdxLine {
    CdxLine {
        url_key: "k".to_string(),
        timestamp: Timestamp::from_unix_time(t).unwrap(),
        original: original.to_string(),
        mime: "text/html".to_string(),
        status_code: status,
        digest: "d".to_string(),
        length: "1".to_string(),
    }
}

fn opts() -> DownloadOption {
    DownloadOption {
        mode: DownloadType::Batch,
        url: "example.com".to_string(),
        from: Some(Timestamp::from_unix_time(5).unwrap()),
        to: None,
    }
}

#[test]
fn download_site_request() {
    let o = MutationRoot.download_site("example.com".to_string(), Some("2021".to_string()), None).unwrap();
    assert_eq!(o.mode, DownloadType::Batch);
    assert_eq!(o.url, "example.com");
    assert_eq!(o.from.unwrap().unix_time(), 1640995199);
    assert!(o.to.is_none());
    let e = MutationRoot.download_site("x".to_string(), None, Some("bad".to_string())).unwrap_err();
    assert_eq!(e, TimestampError::Invalid);
}

#[test]
fn failed_fills() {
    match queue_fill(&opts(), Err(())) {
        QueueFill::Failed(g) => {
            assert_eq!(g.failed.as_deref(), Some("Failed to fetch index"));
            assert_eq!(g.url, "example.com");
            assert_eq!(g.from, Some(5));
            assert_eq!(g.to, None);
            assert_eq!(g.download_type, DownloadType::Batch);
        },
        other => panic!("unexpected {:?}", other),
    }
    match queue_fill(&opts(), Ok(None)) {
        QueueFill::Failed(g) => assert_eq!(g.failed.as_deref(), Some("No pages found")),
        other => panic!("unexpected {:?}", other),
    }
}

#[test]
fn task_fills() {
    match queue_fill(&opts(), Ok(Some(vec![line("http://a/", 7, Some(200)), line("http://b/", 8, None)]))) {
        QueueFill::Tasks(g, ts) => {
            assert_eq!(g.failed, None);
            assert_eq!(ts.len(), 2);
            assert_eq!(ts[0].url, "http://a/");
            assert_eq!(ts[0].timestamp, 7);
            assert_eq!(ts[0].status_code, Some(200));
            assert_eq!(ts[0].download_status, DownloadStatus::Pending);
            assert_eq!(ts[1].status_code, None);
            assert_eq!(ts[1].message, None);
        },
        other => panic!("unexpected {:?}", other),
    }
}

#[test]
fn captures_of_requests() {
    assert!(batch_captures(vec![]).is_none());
    let v = batch_captures(vec![("http://a/".to_string(), line("http://a/", 1, Some(200)))]).unwrap();
    assert_eq!(v.len(), 1);
    assert_eq!(v[0].original, "http://a/");
    assert!(single_capture(None).is_none());
    assert_eq!(single_capture(Some(line("http://a/", 1, None))).unwrap().len(), 1);
}

#[test]
fn task_inputs() {
    let (t, c) = task_download_inputs(1609459200, Some(200)).unwrap();
    assert_eq!(t.unix_time(), 1609459200);
    assert_eq!(c, Some(200));
    assert_eq!(task_download_inputs(1, None).unwrap().1, None);
    assert_eq!(task_download_inputs(i64::MAX, Some(200)).unwrap_err(), TaskInputError::Timestamp);
    assert_eq!(task_download_inputs(1, Some(99)).unwrap_err(), TaskInputError::StatusCode);
    // The stored code is cut to 16 bits first: 65736 becomes 200.
    assert_eq!(task_download_inputs(1, Some(65736)).unwrap().1, Some(200));
    assert_eq!(task_download_inputs(1, Some(-1)).unwrap_err(), TaskInputError::StatusCode);
}

#[test]
fn outcomes() {
    assert_eq!(task_outcome(Ok(DownloadResult::Done)), (None, DownloadStatus::Success));
    assert_eq!(task_outcome(Ok(DownloadResult::Skipped("s".to_string()))), (Some("s".to_string()), DownloadStatus::Skipped));
    assert_eq!(task_outcome(Ok(DownloadResult::FixDb("f".to_string()))), (Some("f".to_string()), DownloadStatus::Skipped));
    assert_eq!(task_outcome(Err("e".to_string())), (Some("e".to_string()), DownloadStatus::Failed));
}

#[test]
fn executor_steps() {
    assert_eq!(executor_step(QueuePoll::Pending { has_group: true }), ExecutorAction::Start);
    assert_eq!(executor_step(QueuePoll::Pending { has_group: false }), ExecutorAction::SkipOrphan);
    assert_eq!(executor_step(QueuePoll::Empty), ExecutorAction::Sleep);
    assert_eq!(executor_step(QueuePoll::QueryFailed), ExecutorAction::Retry);
}

#[test]
fn stats() {
    let s = DownloadStats::from_counts(&vec![
        (DownloadStatus::Pending, 3),
        (DownloadStatus::Success, 5),
        (DownloadStatus::Pending, 4),
    ]);
    assert_eq!(s, DownloadStats { pending: 4, downloading: 0, success: 5, failed: 0, skipped: 0 });
    assert_eq!(DownloadStats::from_counts(&vec![]), DownloadStats::default());
}
