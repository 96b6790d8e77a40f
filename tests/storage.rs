use rust_client_adapter::bitcoin_rpc::block_info_from_parts;
use rust_client_adapter::config::DatabaseConfig;
use rust_client_adapter::data_provider::from_rpc_block;
use rust_client_adapter::db::{
    connect_policy, connection_string, metrics_row, BlockObservation, MetricsRow,
    ObservationStore, StorageError,
};
use rust_client_adapter::retry::RetryStep;

fn obs(height: i64, hash: &str) -> BlockObservation {
    BlockObservation {
        height,
        hash: hash.to_string(),
        timestamp: 1_700_000_000 + height,
        tx_count: 10,
        size_bytes: 2000,
        difficulty: "83148355189239.77".to_string(),
        connection_count: 8,
    }
}

#[test]
fn upsert_twice_is_upsert_once() {
    let mut once = ObservationStore::new();
    once.upsert_observation(obs(5, "a"));
    once.upsert_observation(obs(7, "b"));
    let mut twice = ObservationStore::new();
    twice.upsert_observation(obs(5, "a"));
    twice.upsert_observation(obs(7, "b"));
    twice.upsert_observation(obs(7, "b"));
    assert_eq!(once.read_recent(10), twice.read_recent(10));
    assert_eq!(twice.len(), 2);
}

#[test]
fn upsert_replaces_same_height() {
    let mut s = ObservationStore::new();
    s.upsert_observation(obs(3, "old"));
    s.upsert_observation(obs(1, "x"));
    s.upsert_observation(obs(3, "new"));
    assert_eq!(s.len(), 2);
    let rows = s.read_recent(10);
    assert_eq!(rows[0].hash, "new");
    assert_eq!(rows[1].height, 1);
}

#[test]
fn recent_is_newest_first_and_bounded() {
    let mut s = ObservationStore::new();
    for h in [4, 1, 9, 6, 2] {
        s.upsert_observation(obs(h, "h"));
    }
    let heights: Vec<i64> = s.read_recent(3).iter().map(|o| o.height).collect();
    assert_eq!(heights, vec![9, 6, 4]);
    assert_eq!(s.read_recent(0).len(), 0);
    assert_eq!(s.read_recent(100).len(), 5);
}

#[test]
fn row_parameters() {
    let r = metrics_row(&obs(12, "abc")).unwrap();
    assert_eq!(
        r,
        MetricsRow {
            block_height: 12,
            difficulty: "83148355189239.77".to_string(),
            connection_count: 8,
            tx_count: 10,
            block_size: 2000,
            block_timestamp: 1_700_000_012,
            block_hash: "abc".to_string(),
        }
    );
    let mut big = obs(1, "z");
    big.connection_count = 1 << 40;
    assert_eq!(metrics_row(&big), Err(StorageError::WriteFailed));
}

#[test]
fn connection_parameters() {
    let c = DatabaseConfig {
        host: "db".to_string(),
        port: 5432,
        username: "u".to_string(),
        password: "p".to_string(),
        database_name: "metrics".to_string(),
    };
    assert_eq!(connection_string(&c), "host=db port=5432 user=u password=p dbname=metrics");
    let p = connect_policy();
    assert_eq!(p.after_failure(1), RetryStep::RetryAfter(1000));
    assert_eq!(p.after_failure(2), RetryStep::RetryAfter(2000));
    assert_eq!(p.after_failure(3), RetryStep::RetryAfter(4000));
    assert_eq!(p.after_failure(4), RetryStep::RetryAfter(8000));
    assert_eq!(p.after_failure(5), RetryStep::Exhausted);
}

#[test]
fn node_block_assembly() {
    let b = from_rpc_block(block_info_from_parts(800_000, "00ab".to_string(), 1_690_000_000, 3_000, 1_500_000));
    assert_eq!(b.height, 800_000);
    assert_eq!(b.hash, "00ab");
    assert_eq!(b.timestamp, 1_690_000_000);
    assert_eq!(b.tx_count, 3_000);
    assert_eq!(b.size, 1_500_000);
}
