//! The polling loop as a state machine. Each call of `PollingLoop::step`
//! takes what the caller observed (a timer tick, a provider answer, the
//! outcome of a write) and returns the one thing to do next. The caller
//! performs it and hands back its outcome as the next event.
//!
//! A cycle fetches the head height; where it is above the cursor, it
//! gathers difficulty, connection count and block for every height of the
//! window in ascending order, then writes them all, and only then moves the
//! cursor to the height fetched. Any failure ends the cycle with the cursor
//! where it was, so the next cycle works through the same window again.

use vstd::prelude::*;

use crate::data_provider::{BlockInfo, ProviderError};
use crate::db::{BlockObservation, StorageError};

verus! {

/// How many heights, counted down from the head, one cycle reconciles at
/// most.
pub const HISTORY_SIZE: i64 = 10;

/// The time between the end of one cycle and the start of the next.
pub const POLL_INTERVAL_MS: u64 = 60000;

pub enum PollPhase {
    Idle,
    FetchingCount,
    FetchingDifficulty { target: i64, height: i64 },
    FetchingConnections { target: i64, height: i64, difficulty: String },
    FetchingBlock { target: i64, height: i64, difficulty: String, connection_count: u64 },
    Persisting { target: i64, index: usize },
}

pub enum PollEvent {
    /// The poll interval has passed.
    Tick,
    BlockCount(Result<i64, ProviderError>),
    Difficulty(Result<String, ProviderError>),
    ConnectionCount(Result<u64, ProviderError>),
    Block(Result<BlockInfo, ProviderError>),
    Stored(Result<(), StorageError>),
}

#[derive(Debug)]
pub enum PollAction {
    /// Wait out the poll interval, then report `Tick`.
    Sleep,
    FetchBlockCount,
    FetchDifficulty,
    FetchConnectionCount,
    FetchBlockInfo(i64),
    Upsert(BlockObservation),
}

pub struct PollModel {
    pub last: Option<i64>,
    pub phase: PollPhase,
    pub pending: Seq<BlockObservation>,
}

pub struct PollingLoop {
    /// The height up to which every observation has been written; `None`
    /// before the first successful cycle.
    pub last_observed_height: Option<i64>,
    pub phase: PollPhase,
    /// The observations gathered so far in this cycle, lowest height first.
    pub pending: Vec<BlockObservation>,
}

impl View for PollingLoop {
    type V = PollModel;

    open spec fn view(&self) -> PollModel {
        PollModel { last: self.last_observed_height, phase: self.phase, pending: self.pending@ }
    }
}

/// The cursor as a number: below every height before the first cycle.
pub open spec fn cursor(last: Option<i64>) -> int {
    match last {
        None => -1,
        Some(h) => h as int,
    }
}

/// The first height of the window for a fetched head height `fetched`.
pub open spec fn window_start(last: Option<i64>, fetched: i64) -> int {
    let a = fetched - HISTORY_SIZE + 1;
    let b = cursor(last) + 1;
    if a > b {
        a
    } else {
        b
    }
}

/// The heights to reconcile, first and last, or `None` where nothing is new.
pub open spec fn window_spec(last: Option<i64>, fetched: i64) -> Option<(i64, i64)> {
    if fetched <= cursor(last) {
        None
    } else {
        Some((window_start(last, fetched) as i64, fetched))
    }
}

pub fn reconcile_window(last: Option<i64>, fetched: i64) -> (r: Option<(i64, i64)>)
    ensures
        r == window_spec(last, fetched),
{
    let next: i64 = match last {
        None => {
            if fetched < 0 {
                return None;
            }
            0
        },
        Some(h) => {
            if fetched <= h {
                return None;
            }
            h + 1
        },
    };
    let from_head: i128 = fetched as i128 - HISTORY_SIZE as i128 + 1;
    if from_head > next as i128 {
        Some((from_head as i64, fetched))
    } else {
        Some((next, fetched))
    }
}

pub open spec fn observation_spec(
    height: i64,
    b: BlockInfo,
    difficulty: String,
    connection_count: u64,
) -> BlockObservation {
    BlockObservation {
        height,
        hash: b.hash,
        timestamp: b.timestamp,
        tx_count: b.tx_count,
        size_bytes: b.size,
        difficulty,
        connection_count,
    }
}

/// Waiting for the next tick, cursor `last`.
pub open spec fn idle(last: Option<i64>) -> PollModel {
    PollModel { last, phase: PollPhase::Idle, pending: Seq::empty() }
}

/// The state after `e` and the thing to do next.
pub open spec fn poll_next(m: PollModel, e: PollEvent) -> (PollModel, PollAction) {
    match m.phase {
        PollPhase::Idle => match e {
            PollEvent::Tick => (
                PollModel { last: m.last, phase: PollPhase::FetchingCount, pending: Seq::empty() },
                PollAction::FetchBlockCount,
            ),
            _ => (m, PollAction::Sleep),
        },
        PollPhase::FetchingCount => match e {
            PollEvent::BlockCount(Ok(h)) => match window_spec(m.last, h) {
                None => (idle(m.last), PollAction::Sleep),
                Some((start, end)) => (
                    PollModel {
                        last: m.last,
                        phase: PollPhase::FetchingDifficulty { target: end, height: start },
                        pending: Seq::empty(),
                    },
                    PollAction::FetchDifficulty,
                ),
            },
            _ => (idle(m.last), PollAction::Sleep),
        },
        PollPhase::FetchingDifficulty { target, height } => match e {
            PollEvent::Difficulty(Ok(d)) => (
                PollModel {
                    last: m.last,
                    phase: PollPhase::FetchingConnections { target, height, difficulty: d },
                    pending: m.pending,
                },
                PollAction::FetchConnectionCount,
            ),
            _ => (idle(m.last), PollAction::Sleep),
        },
        PollPhase::FetchingConnections { target, height, difficulty } => match e {
            PollEvent::ConnectionCount(Ok(c)) => (
                PollModel {
                    last: m.last,
                    phase: PollPhase::FetchingBlock { target, height, difficulty, connection_count: c },
                    pending: m.pending,
                },
                PollAction::FetchBlockInfo(height),
            ),
            _ => (idle(m.last), PollAction::Sleep),
        },
        PollPhase::FetchingBlock { target, height, difficulty, connection_count } => match e {
            PollEvent::Block(Ok(b)) => {
                let pending = m.pending.push(observation_spec(height, b, difficulty, connection_count));
                if height < target {
                    (
                        PollModel {
                            last: m.last,
                            phase: PollPhase::FetchingDifficulty { target, height: (height + 1) as i64 },
                            pending,
                        },
                        PollAction::FetchDifficulty,
                    )
                } else {
                    (
                        PollModel { last: m.last, phase: PollPhase::Persisting { target, index: 0 }, pending },
                        PollAction::Upsert(pending[0]),
                    )
                }
            },
            _ => (idle(m.last), PollAction::Sleep),
        },
        PollPhase::Persisting { target, index } => match e {
            PollEvent::Stored(Ok(())) => if index + 1 < m.pending.len() {
                (
                    PollModel {
                        last: m.last,
                        phase: PollPhase::Persisting { target, index: (index + 1) as usize },
                        pending: m.pending,
                    },
                    PollAction::Upsert(m.pending[index + 1]),
                )
            } else {
                (idle(Some(target)), PollAction::Sleep)
            },
            _ => (idle(m.last), PollAction::Sleep),
        },
    }
}


/// The head height that the current cycle works toward, where one is under
/// way past its first fetch.
pub open spec fn cycle_target(phase: PollPhase) -> Option<i64> {
    match phase {
        PollPhase::FetchingDifficulty { target, .. } => Some(target),
        PollPhase::FetchingConnections { target, .. } => Some(target),
        PollPhase::FetchingBlock { target, .. } => Some(target),
        PollPhase::Persisting { target, .. } => Some(target),
        _ => None,
    }
}

/// The gathered observations are the window's heights in order, from its
/// first on.
pub open spec fn heights_from(pending: Seq<BlockObservation>, start: int) -> bool {
    forall|i: int| 0 <= i < pending.len() ==> #[trigger] pending[i].height == start + i
}

/// The states that `PollingLoop::new` and `step` reach.
pub open spec fn poll_wf(m: PollModel) -> bool {
    match m.phase {
        PollPhase::Idle => m.pending.len() == 0,
        PollPhase::FetchingCount => m.pending.len() == 0,
        PollPhase::FetchingDifficulty { target, height } => in_window(m, target, height),
        PollPhase::FetchingConnections { target, height, .. } => in_window(m, target, height),
        PollPhase::FetchingBlock { target, height, .. } => in_window(m, target, height),
        PollPhase::Persisting { target, index } => {
            &&& target > cursor(m.last)
            &&& m.pending.len() == target - window_start(m.last, target) + 1
            &&& heights_from(m.pending, window_start(m.last, target))
        },
    }
}

pub open spec fn in_window(m: PollModel, target: i64, height: i64) -> bool {
    &&& target > cursor(m.last)
    &&& window_start(m.last, target) <= height <= target
    &&& m.pending.len() == height - window_start(m.last, target)
    &&& heights_from(m.pending, window_start(m.last, target))
}

/// An event that reports a failed fetch or write.
pub open spec fn is_failure(e: PollEvent) -> bool {
    match e {
        PollEvent::BlockCount(r) => r is Err,
        PollEvent::Difficulty(r) => r is Err,
        PollEvent::ConnectionCount(r) => r is Err,
        PollEvent::Block(r) => r is Err,
        PollEvent::Stored(r) => r is Err,
        PollEvent::Tick => false,
    }
}

/// The state after each event of `events` in turn.
pub open spec fn poll_run(m: PollModel, events: Seq<PollEvent>) -> PollModel
    decreases events.len(),
{
    if events.len() == 0 {
        m
    } else {
        poll_run(poll_next(m, events[0]).0, events.drop_first())
    }
}

/// One step: the reachable states stay reachable; the cursor never moves
/// back; it moves only when the last write of a cycle succeeds, and then to
/// the cycle's target; and a cycle's target is the head height fetched at
/// its start, kept until the cycle ends.
pub proof fn lemma_step_cursor(m: PollModel, e: PollEvent)
    requires
        poll_wf(m),
    ensures
        poll_wf(poll_next(m, e).0),
        cursor(poll_next(m, e).0.last) >= cursor(m.last),
        poll_next(m, e).0.last != m.last ==> poll_next(m, e).0.last == cycle_target(m.phase),
        poll_next(m, e).0.last != m.last ==> m.phase is Persisting,
        cycle_target(poll_next(m, e).0.phase) is Some ==> (cycle_target(poll_next(m, e).0.phase)
            == cycle_target(m.phase) || (m.phase is FetchingCount && e == PollEvent::BlockCount(
            Ok(cycle_target(poll_next(m, e).0.phase).unwrap()),
        ))),
{
    let n = poll_next(m, e).0;
    match m.phase {
        PollPhase::FetchingBlock { target, height, difficulty, connection_count } => {
            if let PollEvent::Block(Ok(b)) = e {
                let o = observation_spec(height, b, difficulty, connection_count);
                let p = m.pending.push(o);
                assert(p[p.len() - 1] == o);
                assert(heights_from(p, window_start(m.last, target))) by {
                    assert forall|i: int| 0 <= i < p.len() implies #[trigger] p[i].height
                        == window_start(m.last, target) + i by {
                        if i < m.pending.len() {
                            assert(p[i] == m.pending[i]);
                        }
                    }
                }
            }
        },
        _ => {},
    }
}

/// Over any run of events, the cursor never moves back.
pub proof fn lemma_run_cursor(m: PollModel, events: Seq<PollEvent>)
    requires
        poll_wf(m),
    ensures
        poll_wf(poll_run(m, events)),
        cursor(poll_run(m, events).last) >= cursor(m.last),
    decreases events.len(),
{
    if events.len() > 0 {
        lemma_step_cursor(m, events[0]);
        lemma_run_cursor(poll_next(m, events[0]).0, events.drop_first());
    }
}

/// A failure anywhere in a cycle, a failed write included, ends it with the
/// cursor where it was and nothing kept; the window of the next cycle that
/// fetches the same head height is the same window, and holds every height
/// already gathered or written in this one.
pub proof fn lemma_failure_keeps_window(m: PollModel, e: PollEvent)
    requires
        poll_wf(m),
        is_failure(e),
    ensures
        poll_next(m, e).0 == idle(m.last) || poll_next(m, e).0 == m,
        poll_next(m, e).0.last == m.last,
        cycle_target(m.phase) is Some ==> poll_next(m, e).0 == idle(m.last),
        cycle_target(m.phase) is Some ==> ({
            let t = cycle_target(m.phase).unwrap();
            &&& window_spec(poll_next(m, e).0.last, t) == Some(
                (window_start(m.last, t) as i64, t),
            )
            &&& forall|i: int|
                0 <= i < m.pending.len() ==> window_start(m.last, t) <= #[trigger] m.pending[i].height
                    <= t
        }),
{
    if let Some(t) = cycle_target(m.phase) {
        assert(m.pending.len() <= t - window_start(m.last, t) + 1);
    }
}


/// The actions named along a run of events.
pub open spec fn poll_trace(m: PollModel, events: Seq<PollEvent>) -> Seq<PollAction>
    decreases events.len(),
{
    if events.len() == 0 {
        Seq::empty()
    } else {
        seq![poll_next(m, events[0]).1] + poll_trace(poll_next(m, events[0]).0, events.drop_first())
    }
}

/// The heights whose write is asked for, in order.
pub open spec fn upsert_heights(actions: Seq<PollAction>) -> Seq<int>
    decreases actions.len(),
{
    if actions.len() == 0 {
        Seq::empty()
    } else {
        (match actions[0] {
            PollAction::Upsert(o) => seq![o.height as int],
            _ => Seq::empty(),
        }) + upsert_heights(actions.drop_first())
    }
}

/// Successful answers for the heights of a window, one triple per height:
/// difficulty, connection count, block.
pub open spec fn gather_events(d: Seq<String>, c: Seq<u64>, b: Seq<BlockInfo>) -> Seq<PollEvent>
    decreases d.len(),
{
    if d.len() == 0 || c.len() == 0 || b.len() == 0 {
        Seq::empty()
    } else {
        seq![
            PollEvent::Difficulty(Ok(d[0])),
            PollEvent::ConnectionCount(Ok(c[0])),
            PollEvent::Block(Ok(b[0])),
        ] + gather_events(d.drop_first(), c.drop_first(), b.drop_first())
    }
}

/// `n` successful writes.
pub open spec fn stored_events(n: nat) -> Seq<PollEvent>
    decreases n,
{
    if n == 0 {
        Seq::empty()
    } else {
        seq![PollEvent::Stored(Ok(()))] + stored_events((n - 1) as nat)
    }
}

/// A cycle toward head height `fetched` in which every fetch and write
/// succeeds.
pub open spec fn successful_cycle(fetched: i64, d: Seq<String>, c: Seq<u64>, b: Seq<BlockInfo>) -> Seq<PollEvent> {
    seq![PollEvent::Tick, PollEvent::BlockCount(Ok(fetched))] + gather_events(d, c, b) + stored_events(d.len())
}

proof fn lemma_run_cons(m: PollModel, e: PollEvent, rest: Seq<PollEvent>)
    ensures
        poll_run(m, seq![e] + rest) == poll_run(poll_next(m, e).0, rest),
        poll_trace(m, seq![e] + rest) == seq![poll_next(m, e).1] + poll_trace(poll_next(m, e).0, rest),
{
    assert((seq![e] + rest)[0] == e);
    assert((seq![e] + rest).drop_first() =~= rest);
}

proof fn lemma_run_one(m: PollModel, e: PollEvent)
    ensures
        poll_run(m, seq![e]) == poll_next(m, e).0,
        poll_trace(m, seq![e]) == seq![poll_next(m, e).1],
{
    lemma_run_cons(m, e, Seq::empty());
    assert(seq![e] + Seq::<PollEvent>::empty() =~= seq![e]);
    assert(poll_run(poll_next(m, e).0, Seq::<PollEvent>::empty()) == poll_next(m, e).0);
    assert(poll_trace(poll_next(m, e).0, Seq::<PollEvent>::empty()) == Seq::<PollAction>::empty());
    assert(seq![poll_next(m, e).1] + Seq::<PollAction>::empty() =~= seq![poll_next(m, e).1]);
}

proof fn lemma_upsert_one(a: PollAction)
    ensures
        upsert_heights(seq![a]) == match a {
            PollAction::Upsert(o) => seq![o.height as int],
            _ => Seq::<int>::empty(),
        },
{
    assert(seq![a][0] == a);
    assert(seq![a].drop_first() =~= Seq::<PollAction>::empty());
    assert(upsert_heights(Seq::<PollAction>::empty()) == Seq::<int>::empty());
    let h = match a {
        PollAction::Upsert(o) => seq![o.height as int],
        _ => Seq::<int>::empty(),
    };
    assert(h + Seq::<int>::empty() =~= h);
}

proof fn lemma_run_concat(m: PollModel, a: Seq<PollEvent>, b: Seq<PollEvent>)
    ensures
        poll_run(m, a + b) == poll_run(poll_run(m, a), b),
        poll_trace(m, a + b) == poll_trace(m, a) + poll_trace(poll_run(m, a), b),
    decreases a.len(),
{
    if a.len() == 0 {
        assert(a + b =~= b);
        assert(poll_trace(m, a) + poll_trace(m, b) =~= poll_trace(m, b));
    } else {
        assert((a + b)[0] == a[0]);
        assert((a + b).drop_first() =~= a.drop_first() + b);
        let n = poll_next(m, a[0]);
        lemma_run_concat(n.0, a.drop_first(), b);
        assert(poll_trace(m, a + b) =~= seq![n.1] + (poll_trace(n.0, a.drop_first()) + poll_trace(
            poll_run(n.0, a.drop_first()),
            b,
        )));
    }
}

proof fn lemma_upsert_heights_concat(a: Seq<PollAction>, b: Seq<PollAction>)
    ensures
        upsert_heights(a + b) == upsert_heights(a) + upsert_heights(b),
    decreases a.len(),
{
    if a.len() == 0 {
        assert(a + b =~= b);
        assert(upsert_heights(a) + upsert_heights(b) =~= upsert_heights(b));
    } else {
        assert((a + b)[0] == a[0]);
        assert((a + b).drop_first() =~= a.drop_first() + b);
        lemma_upsert_heights_concat(a.drop_first(), b);
        let h = match a[0] {
            PollAction::Upsert(o) => seq![o.height as int],
            _ => Seq::<int>::empty(),
        };
        assert(upsert_heights(a + b) =~= h + (upsert_heights(a.drop_first()) + upsert_heights(b)));
    }
}

/// Gathering from `height` to the target: the cycle reaches its writes with
/// the whole window gathered, and asks for the first write, at the window's
/// first height.
proof fn lemma_gather(m: PollModel, d: Seq<String>, c: Seq<u64>, b: Seq<BlockInfo>)
    requires
        poll_wf(m),
        m.phase is FetchingDifficulty,
        d.len() == c.len() == b.len(),
        d.len() == m.phase->FetchingDifficulty_target - m.phase->FetchingDifficulty_height + 1,
    ensures
        poll_wf(poll_run(m, gather_events(d, c, b))),
        poll_run(m, gather_events(d, c, b)).last == m.last,
        poll_run(m, gather_events(d, c, b)).phase == (PollPhase::Persisting {
            target: m.phase->FetchingDifficulty_target,
            index: 0,
        }),
        upsert_heights(poll_trace(m, gather_events(d, c, b))) == seq![
            window_start(m.last, m.phase->FetchingDifficulty_target),
        ],
    decreases d.len(),
{
    let target = m.phase->FetchingDifficulty_target;
    let height = m.phase->FetchingDifficulty_height;
    let three = seq![
        PollEvent::Difficulty(Ok(d[0])),
        PollEvent::ConnectionCount(Ok(c[0])),
        PollEvent::Block(Ok(b[0])),
    ];
    let rest = gather_events(d.drop_first(), c.drop_first(), b.drop_first());
    assert(gather_events(d, c, b) == three + rest);
    lemma_run_concat(m, three, rest);
    let m1 = poll_next(m, three[0]).0;
    let m2 = poll_next(m1, three[1]).0;
    let m3 = poll_next(m2, three[2]).0;
    lemma_step_cursor(m, three[0]);
    lemma_step_cursor(m1, three[1]);
    lemma_step_cursor(m2, three[2]);
    assert(three =~= seq![three[0]] + (seq![three[1]] + seq![three[2]]));
    lemma_run_cons(m, three[0], seq![three[1]] + seq![three[2]]);
    lemma_run_cons(m1, three[1], seq![three[2]]);
    lemma_run_one(m2, three[2]);
    let a1 = poll_next(m, three[0]).1;
    let a2 = poll_next(m1, three[1]).1;
    let a3 = poll_next(m2, three[2]).1;
    let t3 = poll_trace(m, three);
    assert(t3 == seq![a1] + (seq![a2] + seq![a3]));
    lemma_upsert_heights_concat(seq![a1], seq![a2] + seq![a3]);
    lemma_upsert_heights_concat(seq![a2], seq![a3]);
    lemma_upsert_one(a1);
    lemma_upsert_one(a2);
    lemma_upsert_one(a3);
    let u3 = upsert_heights(t3);
    if height < target {
        assert(u3 =~= Seq::<int>::empty());
        assert(m3.phase == (PollPhase::FetchingDifficulty { target, height: (height + 1) as i64 }));
        lemma_gather(m3, d.drop_first(), c.drop_first(), b.drop_first());
        lemma_upsert_heights_concat(t3, poll_trace(m3, rest));
        assert(u3 + seq![window_start(m.last, target)] =~= seq![window_start(m.last, target)]);
    } else {
        assert(d.len() == 1);
        assert(rest =~= Seq::<PollEvent>::empty());
        assert(three + rest =~= three);
        assert(m3.pending[0].height == window_start(m.last, target));
        assert(u3 =~= seq![window_start(m.last, target)]);
        lemma_upsert_heights_concat(t3, poll_trace(m3, rest));
        assert(poll_trace(m3, rest) =~= Seq::<PollAction>::empty());
        assert(upsert_heights(Seq::<PollAction>::empty()) =~= Seq::<int>::empty());
        assert(u3 + Seq::<int>::empty() =~= u3);
    }
}

/// Writing from `index` on, every write succeeding: the cursor moves to the
/// target, after writes asked for at every later height in order.
proof fn lemma_persist(m: PollModel, n: nat)
    requires
        poll_wf(m),
        m.phase is Persisting,
        m.phase->Persisting_index < m.pending.len(),
        n == m.pending.len() - m.phase->Persisting_index,
    ensures
        poll_run(m, stored_events(n)) == idle(Some(m.phase->Persisting_target)),
        upsert_heights(poll_trace(m, stored_events(n))) == Seq::new(
            (n - 1) as nat,
            |j: int| window_start(m.last, m.phase->Persisting_target) + m.phase->Persisting_index + 1 + j,
        ),
    decreases n,
{
    let target = m.phase->Persisting_target;
    let index = m.phase->Persisting_index;
    let s = window_start(m.last, target);
    let e = PollEvent::Stored(Ok(()));
    let rest = stored_events((n - 1) as nat);
    assert(stored_events(n) == seq![e] + rest);
    lemma_run_concat(m, seq![e], rest);
    let step = poll_next(m, e);
    lemma_run_one(m, e);
    lemma_upsert_heights_concat(seq![step.1], poll_trace(step.0, rest));
    lemma_upsert_one(step.1);
    if index + 1 < m.pending.len() {
        lemma_step_cursor(m, e);
        lemma_persist(step.0, (n - 1) as nat);
        assert(m.pending[index + 1].height == s + index + 1);
        assert(upsert_heights(seq![step.1]) =~= seq![s + index + 1]);
        assert(upsert_heights(poll_trace(m, stored_events(n))) =~= Seq::new(
            (n - 1) as nat,
            |j: int| s + index + 1 + j,
        ));
    } else {
        assert(n == 1);
        assert(rest =~= Seq::<PollEvent>::empty());
        assert(upsert_heights(seq![step.1]) =~= Seq::<int>::empty());
        assert(upsert_heights(poll_trace(step.0, rest)) =~= Seq::<int>::empty());
        assert(upsert_heights(poll_trace(m, stored_events(n))) =~= Seq::new(
            (n - 1) as nat,
            |j: int| s + index + 1 + j,
        ));
    }
}

/// After a cycle that failed anywhere, a write included, the next cycle that
/// fetches the same head height and succeeds asks to write every height of
/// the window, those written before the failure included, once each in
/// ascending order, and then moves the cursor to that head height.
pub proof fn lemma_retried_cycle_covers_window(
    m: PollModel,
    failure: PollEvent,
    d: Seq<String>,
    c: Seq<u64>,
    b: Seq<BlockInfo>,
)
    requires
        poll_wf(m),
        cycle_target(m.phase) is Some,
        is_failure(failure),
        d.len() == c.len() == b.len(),
        d.len() == cycle_target(m.phase).unwrap() - window_start(m.last, cycle_target(m.phase).unwrap()) + 1,
    ensures
        ({
            let f = cycle_target(m.phase).unwrap();
            let after = poll_next(m, failure).0;
            let events = successful_cycle(f, d, c, b);
            &&& poll_run(after, events) == idle(Some(f))
            &&& upsert_heights(poll_trace(after, events)) == Seq::new(
                d.len(),
                |j: int| window_start(m.last, f) + j,
            )
        }),
{
    let f = cycle_target(m.phase).unwrap();
    let s = window_start(m.last, f);
    lemma_failure_keeps_window(m, failure);
    let after = poll_next(m, failure).0;
    assert(after == idle(m.last));
    let head = seq![PollEvent::Tick, PollEvent::BlockCount(Ok(f))];
    let g = gather_events(d, c, b);
    let w = stored_events(d.len());
    assert(successful_cycle(f, d, c, b) == head + g + w);
    let m1 = poll_next(after, head[0]).0;
    let m2 = poll_next(m1, head[1]).0;
    lemma_step_cursor(after, head[0]);
    lemma_step_cursor(m1, head[1]);
    assert(head =~= seq![head[0]] + seq![head[1]]);
    lemma_run_cons(after, head[0], seq![head[1]]);
    lemma_run_one(m1, head[1]);
    let th = poll_trace(after, head);
    assert(th == seq![PollAction::FetchBlockCount] + seq![PollAction::FetchDifficulty]);
    lemma_upsert_heights_concat(seq![PollAction::FetchBlockCount], seq![PollAction::FetchDifficulty]);
    lemma_upsert_one(PollAction::FetchBlockCount);
    lemma_upsert_one(PollAction::FetchDifficulty);
    assert(upsert_heights(th) =~= Seq::<int>::empty());
    assert(m2.phase == (PollPhase::FetchingDifficulty { target: f, height: s as i64 }));
    assert(m2.last == m.last);
    lemma_gather(m2, d, c, b);
    let m3 = poll_run(m2, g);
    lemma_persist(m3, d.len());
    lemma_run_concat(after, head, g);
    lemma_run_concat(after, head + g, w);
    lemma_upsert_heights_concat(th, poll_trace(m2, g));
    lemma_upsert_heights_concat(poll_trace(after, head + g), poll_trace(m3, w));
    assert(upsert_heights(poll_trace(after, head + g + w)) =~= Seq::new(d.len(), |j: int| s + j));
}

impl PollingLoop {
    pub fn new() -> (r: PollingLoop)
        ensures
            r@ == idle(None),
            poll_wf(r@),
    {
        PollingLoop { last_observed_height: None, phase: PollPhase::Idle, pending: Vec::new() }
    }

    pub fn last_observed_height(&self) -> (r: Option<i64>)
        ensures
            r == self@.last,
    {
        self.last_observed_height
    }

    fn abandon_cycle(&mut self)
        ensures
            final(self)@ == idle(old(self)@.last),
    {
        self.phase = PollPhase::Idle;
        self.pending = Vec::new();
    }

    /// Takes one event and names what to do next.
    pub fn step(&mut self, event: PollEvent) -> (a: PollAction)
        ensures
            (final(self)@, a) == poll_next(old(self)@, event),
    {
        match &self.phase {
            PollPhase::Idle => match event {
                PollEvent::Tick => {
                    self.phase = PollPhase::FetchingCount;
                    self.pending = Vec::new();
                    PollAction::FetchBlockCount
                },
                _ => PollAction::Sleep,
            },
            PollPhase::FetchingCount => match event {
                PollEvent::BlockCount(Ok(h)) => match reconcile_window(self.last_observed_height, h) {
                    None => {
                        self.abandon_cycle();
                        PollAction::Sleep
                    },
                    Some((start, end)) => {
                        self.phase = PollPhase::FetchingDifficulty { target: end, height: start };
                        self.pending = Vec::new();
                        PollAction::FetchDifficulty
                    },
                },
                _ => {
                    self.abandon_cycle();
                    PollAction::Sleep
                },
            },
            PollPhase::FetchingDifficulty { target, height } => {
                let (t, h) = (*target, *height);
                match event {
                    PollEvent::Difficulty(Ok(d)) => {
                        self.phase = PollPhase::FetchingConnections { target: t, height: h, difficulty: d };
                        PollAction::FetchConnectionCount
                    },
                    _ => {
                        self.abandon_cycle();
                        PollAction::Sleep
                    },
                }
            },
            PollPhase::FetchingConnections { target, height, difficulty } => {
                let (t, h) = (*target, *height);
                let d = difficulty.clone();
                match event {
                    PollEvent::ConnectionCount(Ok(c)) => {
                        self.phase = PollPhase::FetchingBlock {
                            target: t,
                            height: h,
                            difficulty: d,
                            connection_count: c,
                        };
                        PollAction::FetchBlockInfo(h)
                    },
                    _ => {
                        self.abandon_cycle();
                        PollAction::Sleep
                    },
                }
            },
            PollPhase::FetchingBlock { target, height, difficulty, connection_count } => {
                let (t, h, c) = (*target, *height, *connection_count);
                let d = difficulty.clone();
                match event {
                    PollEvent::Block(Ok(b)) => {
                        let o = BlockObservation {
                            height: h,
                            hash: b.hash,
                            timestamp: b.timestamp,
                            tx_count: b.tx_count,
                            size_bytes: b.size,
                            difficulty: d,
                            connection_count: c,
                        };
                        self.pending.push(o);
                        if h < t {
                            self.phase = PollPhase::FetchingDifficulty { target: t, height: h + 1 };
                            PollAction::FetchDifficulty
                        } else {
                            self.phase = PollPhase::Persisting { target: t, index: 0 };
                            PollAction::Upsert(self.pending[0].duplicate())
                        }
                    },
                    _ => {
                        self.abandon_cycle();
                        PollAction::Sleep
                    },
                }
            },
            PollPhase::Persisting { target, index } => {
                let (t, i) = (*target, *index);
                match event {
                    PollEvent::Stored(Ok(())) => {
                        if i < self.pending.len() && self.pending.len() - i > 1 {
                            self.phase = PollPhase::Persisting { target: t, index: i + 1 };
                            PollAction::Upsert(self.pending[i + 1].duplicate())
                        } else {
                            self.last_observed_height = Some(t);
                            self.abandon_cycle();
                            PollAction::Sleep
                        }
                    },
                    _ => {
                        self.abandon_cycle();
                        PollAction::Sleep
                    },
                }
            },
        }
    }
}

} // verus!
