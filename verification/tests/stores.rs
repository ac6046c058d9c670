use thane::paths::temp_sibling;
use thane::stores::{HistoryStore, QueueHistoryStore, SessionStore};
use thane::timestamp::{days_before, Timestamp};

const DAY: i64 = 86400;

fn at(secs: i64) -> Timestamp {
    Timestamp { secs, nanos: 0 }
}

#[test]
fn store_files() {
    let s = SessionStore::new("/d".to_string());
    assert_eq!(s.session_file(), "/d/session.json");
    assert_eq!(s.temp_file(12), "/d/session.json.12.tmp");
    let h = HistoryStore::new("/d".to_string());
    assert_eq!(h.history_file(), "/d/history.json");
    assert_eq!(h.temp_file(7), "/d/history.json.7.tmp");
    let q = QueueHistoryStore::new("/d".to_string());
    assert_eq!(q.history_file(), "/d/queue_history.json");
    assert_eq!(q.temp_file(7), "/d/queue_history.json.7.tmp");
}

#[test]
fn test_prune_by_count() {
    let now = at(1_700_000_000);
    let completed: Vec<Option<Timestamp>> = (0..510).map(|i| Some(at(1_700_000_000 - 1000 + i))).collect();
    let kept = QueueHistoryStore::prune_entries(&completed, now);
    assert_eq!(kept.len(), 500);
    // The oldest entries are dropped first.
    assert_eq!(kept[0], 10);
    assert_eq!(*kept.last().unwrap(), 509);
}

#[test]
fn test_prune_by_age() {
    let now = at(1_700_000_000);
    let completed = vec![
        Some(at(1_700_000_000 - 100 * DAY)),
        Some(at(1_700_000_000 - DAY)),
        None,
        Some(at(1_700_000_000 - 90 * DAY)),
    ];
    let kept = QueueHistoryStore::prune_entries(&completed, now);
    assert_eq!(kept, vec![1, 2]);
}

#[test]
fn days_before_follows_chrono() {
    assert_eq!(days_before(at(10 * DAY), 3), at(7 * DAY));
    let leap = Timestamp { secs: 5 * DAY, nanos: 1_200_000_000 };
    assert_eq!(days_before(leap, 1), Timestamp { secs: 4 * DAY + 1, nanos: 200_000_000 });
}

#[test]
fn temp_sibling_names() {
    assert_eq!(temp_sibling("/a/b/audit.1.jsonl.enc", 42), "/a/b/audit.1.jsonl.enc.tmp.42");
    assert_eq!(temp_sibling("file", 1), "file.tmp.1");
}
