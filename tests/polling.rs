use rust_client_adapter::data_provider::{BlockInfo, ProviderError};
use rust_client_adapter::db::{ObservationStore, StorageError};
use rust_client_adapter::metrics::{
    reconcile_window, PollAction, PollEvent, PollPhase, PollingLoop,
};

fn block(height: i64) -> BlockInfo {
    BlockInfo {
        height,
        hash: format!("hash{}", height),
        timestamp: 1_700_000_000 + height,
        tx_count: 3,
        size: 900,
    }
}

fn at(last: Option<i64>) -> PollingLoop {
    PollingLoop { last_observed_height: last, phase: PollPhase::Idle, pending: Vec::new() }
}

/// Runs one cycle against a head at `head` in which every fetch succeeds;
/// writes go to `store`, and the write number `fail_write` (counted from 0)
/// fails where one is given. Returns the heights whose write was asked for.
fn cycle(p: &mut PollingLoop, head: i64, store: &mut ObservationStore, fail_write: Option<usize>) -> Vec<i64> {
    let mut written = Vec::new();
    let mut action = p.step(PollEvent::Tick);
    assert!(matches!(action, PollAction::FetchBlockCount));
    action = p.step(PollEvent::BlockCount(Ok(head)));
    loop {
        action = match action {
            PollAction::Sleep => return written,
            PollAction::FetchBlockCount => panic!("count fetched twice in a cycle"),
            PollAction::FetchDifficulty => p.step(PollEvent::Difficulty(Ok("1.5".to_string()))),
            PollAction::FetchConnectionCount => p.step(PollEvent::ConnectionCount(Ok(8))),
            PollAction::FetchBlockInfo(h) => p.step(PollEvent::Block(Ok(block(h)))),
            PollAction::Upsert(o) => {
                let n = written.len();
                written.push(o.height);
                if fail_write == Some(n) {
                    p.step(PollEvent::Stored(Err(StorageError::WriteFailed)))
                } else {
                    store.upsert_observation(o);
                    p.step(PollEvent::Stored(Ok(())))
                }
            }
        };
    }
}

#[test]
fn window_from_cursor_100_to_head_105() {
    assert_eq!(reconcile_window(Some(100), 105), Some((101, 105)));
    let mut p = at(Some(100));
    let mut store = ObservationStore::new();
    let written = cycle(&mut p, 105, &mut store, None);
    assert_eq!(written, vec![101, 102, 103, 104, 105]);
    assert_eq!(p.last_observed_height(), Some(105));
    let heights: Vec<i64> = store.read_recent(100).iter().map(|o| o.height).collect();
    assert_eq!(heights, vec![105, 104, 103, 102, 101]);
    let top = &store.read_recent(1)[0];
    assert_eq!(top.hash, "hash105");
    assert_eq!(top.difficulty, "1.5");
    assert_eq!(top.connection_count, 8);
}

#[test]
fn rate_limited_difficulty_aborts_cycle() {
    let mut p = at(Some(100));
    assert!(matches!(p.step(PollEvent::Tick), PollAction::FetchBlockCount));
    assert!(matches!(p.step(PollEvent::BlockCount(Ok(105))), PollAction::FetchDifficulty));
    let a = p.step(PollEvent::Difficulty(Err(ProviderError::RateLimitExceeded)));
    assert!(matches!(a, PollAction::Sleep));
    assert_eq!(p.last_observed_height(), Some(100));
    assert!(matches!(p.phase, PollPhase::Idle));
    assert!(p.pending.is_empty());
}

#[test]
fn failed_write_retries_whole_window() {
    let mut p = at(Some(100));
    let mut store = ObservationStore::new();
    let first = cycle(&mut p, 105, &mut store, Some(2));
    assert_eq!(first, vec![101, 102, 103]);
    assert_eq!(p.last_observed_height(), Some(100));
    let second = cycle(&mut p, 105, &mut store, None);
    assert_eq!(second, vec![101, 102, 103, 104, 105]);
    assert_eq!(p.last_observed_height(), Some(105));
    assert_eq!(store.len(), 5);
}

#[test]
fn cursor_never_moves_back() {
    let mut p = PollingLoop::new();
    let mut store = ObservationStore::new();
    assert_eq!(reconcile_window(None, 105), Some((96, 105)));
    assert_eq!(reconcile_window(None, 3), Some((0, 3)));
    let w = cycle(&mut p, 105, &mut store, None);
    assert_eq!(w.len(), 10);
    assert_eq!(p.last_observed_height(), Some(105));
    // a provider behind the one before: nothing new, the cursor stays
    assert!(cycle(&mut p, 103, &mut store, None).is_empty());
    assert_eq!(p.last_observed_height(), Some(105));
    assert!(cycle(&mut p, 105, &mut store, None).is_empty());
    // long downtime: only the last HISTORY_SIZE heights are reconciled
    let w = cycle(&mut p, 200, &mut store, None);
    assert_eq!(w, (191..=200).collect::<Vec<i64>>());
    assert_eq!(p.last_observed_height(), Some(200));
}

#[test]
fn failed_count_skips_cycle() {
    let mut p = at(Some(7));
    p.step(PollEvent::Tick);
    assert!(matches!(p.step(PollEvent::BlockCount(Err(ProviderError::RequestFailed))), PollAction::Sleep));
    assert_eq!(p.last_observed_height(), Some(7));
    p.step(PollEvent::Tick);
    p.step(PollEvent::BlockCount(Ok(8)));
    p.step(PollEvent::Difficulty(Ok("2".to_string())));
    p.step(PollEvent::ConnectionCount(Ok(0)));
    let a = p.step(PollEvent::Block(Err(ProviderError::MissingField("hash".to_string()))));
    assert!(matches!(a, PollAction::Sleep));
    assert_eq!(p.last_observed_height(), Some(7));
}
