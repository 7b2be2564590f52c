use std::sync::{Arc, Mutex};
use yalt::sink::{MetricsSink, OutcomeRecord};

fn record(host: &str, payload: &str, success: bool) -> OutcomeRecord {
    OutcomeRecord {
        timestamp: 1_700_000_000,
        target_host: host.to_string(),
        payload: payload.to_string(),
        success,
    }
}

fn count_rows(path: &str, where_clause: &str) -> i64 {
    let conn = rusqlite::Connection::open(path).unwrap();
    let sql = format!("SELECT COUNT(*) FROM metrics {}", where_clause);
    conn.query_row(&sql, [], |row| row.get(0)).unwrap()
}

#[test]
fn one_record_one_row() {
    let dir = tempfile::TempDir::new().unwrap();
    let path = dir.path().join("metrics.db");
    let path = path.to_str().unwrap();
    let mut sink = MetricsSink::new(path).unwrap();
    sink.record(&record("10.0.0.1", "ping", true)).unwrap();
    assert_eq!(count_rows(path, ""), 1);
    assert_eq!(count_rows(path, "WHERE success = 1"), 1);
    assert_eq!(count_rows(path, "WHERE ip = '10.0.0.1' AND payload = 'ping'"), 1);
}

#[test]
fn failures_persist_with_success_false() {
    let dir = tempfile::TempDir::new().unwrap();
    let path = dir.path().join("metrics.db");
    let path = path.to_str().unwrap();
    let mut sink = MetricsSink::new(path).unwrap();
    sink.record(&record("10.0.0.2", "p", false)).unwrap();
    sink.record(&record("10.0.0.2", "p", false)).unwrap();
    assert_eq!(count_rows(path, "WHERE success = 0"), 2);
    assert_eq!(count_rows(path, "WHERE success = 1"), 0);
}

#[test]
fn schema_ensure_is_idempotent() {
    let dir = tempfile::TempDir::new().unwrap();
    let path = dir.path().join("metrics.db");
    let path = path.to_str().unwrap();
    {
        let mut sink = MetricsSink::new(path).unwrap();
        sink.record(&record("a", "p", true)).unwrap();
    }
    {
        let mut sink = MetricsSink::new(path).unwrap();
        sink.record(&record("b", "p", true)).unwrap();
    }
    assert_eq!(count_rows(path, ""), 2);
}

#[test]
fn store_init_fails_on_unusable_path() {
    assert!(MetricsSink::new("/nonexistent-dir/sub/metrics.db").is_err());
}

#[test]
fn persist_failure_is_reported_not_escalated() {
    let dir = tempfile::TempDir::new().unwrap();
    let path = dir.path().join("metrics.db");
    let path = path.to_str().unwrap();
    let mut sink = MetricsSink::new(path).unwrap();
    // Pull the table out from under the sink: the next record call reports
    // a persist error instead of panicking.
    let conn = rusqlite::Connection::open(path).unwrap();
    conn.execute("DROP TABLE metrics", ()).unwrap();
    assert!(sink.record(&record("a", "p", true)).is_err());
}

#[test]
fn concurrent_records_all_land() {
    // K concurrent writers against one shared store: exactly K rows, none
    // lost or corrupted.
    let dir = tempfile::TempDir::new().unwrap();
    let path = dir.path().join("metrics.db");
    let path_str = path.to_str().unwrap().to_string();
    let sink = Arc::new(Mutex::new(MetricsSink::new(&path_str).unwrap()));
    let k = 128;
    let rt = tokio::runtime::Builder::new_multi_thread()
        .worker_threads(8)
        .build()
        .unwrap();
    rt.block_on(async {
        let mut handles = Vec::new();
        for i in 0..k {
            let sink = Arc::clone(&sink);
            handles.push(tokio::spawn(async move {
                let rec = record(&format!("host{}", i), "payload", true);
                sink.lock().unwrap().record(&rec).unwrap();
            }));
        }
        for h in handles {
            h.await.unwrap();
        }
    });
    assert_eq!(count_rows(&path_str, ""), k as i64);
    assert_eq!(count_rows(&path_str, "WHERE payload = 'payload' AND success = 1"), k as i64);
    assert_eq!(count_rows(&path_str, "WHERE ip = 'host17'"), 1);
}
