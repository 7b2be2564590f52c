use std::sync::{Arc, Mutex};
use std::time::Instant;
use tokio::io::AsyncWriteExt;
use tokio::net::{TcpListener, TcpStream};
use yalt::config::build_run_config;
use yalt::dispatch::Dispatcher;
use yalt::select::select_target;
use yalt::sink::{MetricsSink, OutcomeRecord};

async fn send_payload(host: &str, port: u16, payload: &str) -> bool {
    match TcpStream::connect((host, port)).await {
        Ok(mut stream) => stream.write_all(payload.as_bytes()).await.is_ok(),
        Err(_) => false,
    }
}

async fn run_scenario(specs: Vec<String>, rate_tokens: u64, duration: u64, path: &str) -> u64 {
    let config =
        build_run_config(&specs, rate_tokens * 1_000, duration, "Test payload".to_string())
            .unwrap();
    let sink = Arc::new(Mutex::new(MetricsSink::new(path).unwrap()));
    let start = Instant::now();
    let mut dispatcher = Dispatcher::new(config, 0);
    let mut handles = Vec::new();
    while !dispatcher.is_finished() {
        let now = start.elapsed().as_nanos() as u64;
        if dispatcher.poll(now) {
            let cfg = dispatcher.config();
            let i = select_target(&cfg.targets, cfg.total_weight);
            let host = cfg.targets[i].host.clone();
            let port = cfg.targets[i].port;
            let payload = cfg.payload.clone();
            let sink = Arc::clone(&sink);
            handles.push(tokio::spawn(async move {
                let success = send_payload(&host, port, &payload).await;
                let timestamp = 1_700_000_000;
                let rec = OutcomeRecord {
                    timestamp,
                    target_host: host,
                    payload,
                    success,
                };
                let _ = sink.lock().unwrap().record(&rec);
            }));
        }
        tokio::time::sleep(tokio::time::Duration::from_millis(1)).await;
    }
    for h in handles {
        h.await.unwrap();
    }
    dispatcher.summary().sent_count
}

fn count_rows(path: &str, where_clause: &str) -> i64 {
    let conn = rusqlite::Connection::open(path).unwrap();
    let sql = format!("SELECT COUNT(*) FROM metrics {}", where_clause);
    conn.query_row(&sql, [], |row| row.get(0)).unwrap()
}

#[test]
fn even_weights_spread_attempts_over_both_targets() {
    // Full pipeline over a simulated wall clock: dispatcher admission at
    // rate 200 for 10 s of 1 ms ticks, random selection between two targets
    // of equal weight, every attempt succeeding, each outcome persisted.
    let dir = tempfile::TempDir::new().unwrap();
    let path = dir.path().join("metrics.db");
    let path = path.to_str().unwrap();
    let mut sink = MetricsSink::new(path).unwrap();

    let specs = vec!["10.0.0.1:12345:50".to_string(), "10.0.0.2:12346:50".to_string()];
    let config = build_run_config(&specs, 200_000, 10, "Test payload".to_string()).unwrap();
    let mut dispatcher = Dispatcher::new(config, 0);
    let mut now = 0u64;
    while !dispatcher.is_finished() {
        if dispatcher.poll(now) {
            let cfg = dispatcher.config();
            let i = select_target(&cfg.targets, cfg.total_weight);
            let rec = OutcomeRecord {
                timestamp: (now / 1_000_000_000) as i64,
                target_host: cfg.targets[i].host.clone(),
                payload: cfg.payload.clone(),
                success: true,
            };
            sink.record(&rec).unwrap();
        }
        now += 1_000_000;
    }
    let sent = dispatcher.summary().sent_count;

    // Within -10%/+10% of rate * duration (the +10% edge is the burst).
    assert!(sent >= 1800, "sent {}", sent);
    assert!(sent <= 2200, "sent {}", sent);
    let ok = count_rows(path, "WHERE success = 1");
    assert_eq!(ok, count_rows(path, ""));
    assert_eq!(ok as u64, sent);

    // Each target receives a share that is within fifteen points of even.
    let a = count_rows(path, "WHERE ip = '10.0.0.1'");
    let b = count_rows(path, "WHERE ip = '10.0.0.2'");
    assert_eq!(a + b, ok);
    assert!(a * 100 >= (a + b) * 35, "share a {} of {}", a, a + b);
    assert!(b * 100 >= (a + b) * 35, "share b {} of {}", b, a + b);
}

#[test]
fn refusing_target_still_completes_the_run() {
    let dir = tempfile::TempDir::new().unwrap();
    let path = dir.path().join("metrics.db");
    let path = path.to_str().unwrap();

    let rt = tokio::runtime::Builder::new_multi_thread()
        .worker_threads(4)
        .enable_all()
        .build()
        .unwrap();
    let sent = rt.block_on(async {
        // Reserve a port, then close the listener so every connect is
        // refused.
        let port = {
            let listener = TcpListener::bind("127.0.0.1:0").await.unwrap();
            listener.local_addr().unwrap().port()
        };
        let specs = vec![format!("127.0.0.1:{}:10", port)];
        run_scenario(specs, 100, 1, path).await
    });

    assert!(sent > 0);
    let rows = count_rows(path, "");
    assert_eq!(rows as u64, sent);
    assert_eq!(count_rows(path, "WHERE success = 0"), rows);
    assert_eq!(count_rows(path, "WHERE success = 1"), 0);
}
