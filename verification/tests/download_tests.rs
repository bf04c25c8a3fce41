use void_mod_manager::download::dest_file_name;
use void_mod_manager::download::DownloadQueue;
use void_mod_manager::download::DownloadWorker;
use void_mod_manager::download::ModDownloadResult;
use void_mod_manager::download::QueuedDownload;
use void_mod_manager::download::percent_complete;

fn req(id: &str, url: &str) -> QueuedDownload {
    QueuedDownload { mod_id: id.to_string(), url: url.to_string() }
}

#[test]
fn queue_serves_fifo() {
    let mut q = DownloadQueue::new(100);
    assert!(q.enqueue(req("1", "http://h/a.zip")));
    assert!(q.enqueue(req("2", "http://h/b.zip")));
    assert!(q.enqueue(req("3", "http://h/c.zip")));
    assert_eq!(q.len(), 3);
    assert_eq!(q.dequeue().unwrap().mod_id, "1");
    assert_eq!(q.dequeue().unwrap().mod_id, "2");
    assert_eq!(q.dequeue().unwrap().mod_id, "3");
    assert!(q.dequeue().is_none());
}

#[test]
fn queue_refuses_beyond_capacity() {
    let mut q = DownloadQueue::new(2);
    assert!(q.enqueue(req("1", "u")));
    assert!(q.enqueue(req("2", "u")));
    assert!(!q.enqueue(req("3", "u")));
    assert_eq!(q.len(), 2);
    q.dequeue().unwrap();
    assert!(q.enqueue(req("3", "u")));
}

#[test]
fn percent_rounds_and_clamps() {
    assert_eq!(percent_complete(0, 100), 0);
    assert_eq!(percent_complete(50, 200), 25);
    assert_eq!(percent_complete(1, 3), 33);
    assert_eq!(percent_complete(2, 3), 67);
    assert_eq!(percent_complete(199, 200), 100);
    assert_eq!(percent_complete(100, 100), 100);
    assert_eq!(percent_complete(300, 200), 100);
    assert_eq!(percent_complete(1, u64::MAX), 0);
}

#[test]
fn worker_reports_non_decreasing_percentages_then_completed() {
    let mut w = DownloadWorker::start(Some(100));
    let r1 = w.on_chunk(30);
    assert!(matches!(r1, Some(ModDownloadResult::InProgress(30))));
    let r2 = w.on_chunk(30);
    assert!(matches!(r2, Some(ModDownloadResult::InProgress(60))));
    let r3 = w.on_chunk(40);
    assert!(matches!(r3, Some(ModDownloadResult::InProgress(100))));
    let done = w.on_complete("/tmp-area/mod.zip".to_string());
    match done {
        ModDownloadResult::Completed(p) => assert_eq!(p, "/tmp-area/mod.zip"),
        other => panic!("expected Completed, got {:?}", other),
    }
}

#[test]
fn worker_without_content_length_publishes_no_progress() {
    let mut w = DownloadWorker::start(None);
    assert!(w.on_chunk(1000).is_none());
    assert!(w.on_chunk(1000).is_none());
    let done = w.on_complete("f".to_string());
    assert!(matches!(done, ModDownloadResult::Completed(_)));
}

#[test]
fn worker_treats_zero_content_length_as_unknown() {
    let mut w = DownloadWorker::start(Some(0));
    assert!(w.on_chunk(10).is_none());
}

#[test]
fn worker_failure_is_terminal_report() {
    let mut w = DownloadWorker::start(Some(10));
    let _ = w.on_chunk(5);
    let done = w.on_failure("connection reset".to_string());
    match done {
        ModDownloadResult::Failed(m) => assert_eq!(m, "connection reset"),
        other => panic!("expected Failed, got {:?}", other),
    }
}

#[test]
fn worker_overrun_stays_at_one_hundred() {
    let mut w = DownloadWorker::start(Some(10));
    let r1 = w.on_chunk(10);
    assert!(matches!(r1, Some(ModDownloadResult::InProgress(100))));
    let r2 = w.on_chunk(10);
    assert!(matches!(r2, Some(ModDownloadResult::InProgress(100))));
}

#[test]
fn dest_file_name_takes_last_url_segment() {
    assert_eq!(dest_file_name("https://example.com/files/mod.zip"), "mod.zip");
    assert_eq!(dest_file_name("https://example.com/files/mod.zip?version=2"), "mod.zip");
    assert_eq!(dest_file_name("https://example.com/files/mod.zip#frag"), "mod.zip");
    assert_eq!(dest_file_name("https://example.com/"), "unknown.zip");
    assert_eq!(dest_file_name("https://example.com/dir/"), "unknown.zip");
}
