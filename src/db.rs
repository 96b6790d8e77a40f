//! Storage of observations: one row per block height, replaced on a repeated
//! observation. The statements the caller sends to the relational store are
//! here, with the parameters for each observation. `ObservationStore` is an
//! in-memory model of that table under the same rule: what is proved of it
//! (one row per height, idempotent upsert, newest first) holds of the model,
//! not of the SQL statements, which the store runs unchecked.

use vstd::prelude::*;
use vstd::string::*;

use crate::config::DatabaseConfig;
use crate::retry::RetryPolicy;
use crate::decimal::{append_decimal, decimal_text};

verus! {

/// One observation of the chain, keyed by height.
#[derive(Debug, Clone, PartialEq, Eq)]
pub struct BlockObservation {
    pub height: i64,
    pub hash: String,
    pub timestamp: i64,
    pub tx_count: u32,
    pub size_bytes: u32,
    /// The chain-wide difficulty at the time of observation, as decimal text.
    pub difficulty: String,
    /// Peers of the node; the unavailable sentinel where the backend cannot
    /// tell.
    pub connection_count: u64,
}

impl BlockObservation {
    pub fn duplicate(&self) -> (r: BlockObservation)
        ensures
            r == *self,
    {
        BlockObservation {
            height: self.height,
            hash: self.hash.clone(),
            timestamp: self.timestamp,
            tx_count: self.tx_count,
            size_bytes: self.size_bytes,
            difficulty: self.difficulty.clone(),
            connection_count: self.connection_count,
        }
    }
}

#[derive(Debug, Clone, Copy, PartialEq, Eq, Structural)]
pub enum StorageError {
    ConnectionFailed,
    WriteFailed,
}

pub const CREATE_TABLE_SQL: &'static str = "CREATE TABLE IF NOT EXISTS blockchain_metrics (
    id SERIAL PRIMARY KEY,
    timestamp TIMESTAMP WITHOUT TIME ZONE NOT NULL DEFAULT CURRENT_TIMESTAMP,
    block_height BIGINT NOT NULL UNIQUE,
    difficulty TEXT NOT NULL,
    connection_count INTEGER,
    tx_count INTEGER,
    block_size INTEGER,
    block_timestamp BIGINT,
    block_hash TEXT
);
CREATE INDEX IF NOT EXISTS idx_blockchain_metrics_timestamp ON blockchain_metrics (timestamp);";

/// One statement: insert the row, or on a height already present overwrite
/// every other column and refresh the modification time.
pub const UPSERT_SQL: &'static str = "INSERT INTO blockchain_metrics (block_height, difficulty, connection_count, tx_count, block_size, block_timestamp, block_hash)
VALUES ($1, $2, $3, $4, $5, $6, $7)
ON CONFLICT (block_height) DO UPDATE SET
    difficulty = EXCLUDED.difficulty,
    connection_count = EXCLUDED.connection_count,
    tx_count = EXCLUDED.tx_count,
    block_size = EXCLUDED.block_size,
    block_timestamp = EXCLUDED.block_timestamp,
    block_hash = EXCLUDED.block_hash,
    timestamp = CURRENT_TIMESTAMP";

/// The most recent rows first, at most `$1` of them.
pub const RECENT_SQL: &'static str = "SELECT block_height, difficulty, connection_count, tx_count, block_size, block_timestamp, block_hash
FROM blockchain_metrics ORDER BY block_height DESC LIMIT $1";

/// The parameters of `UPSERT_SQL` for one observation, in column types.
#[derive(Debug, Clone, PartialEq, Eq)]
pub struct MetricsRow {
    pub block_height: i64,
    pub difficulty: String,
    pub connection_count: i32,
    pub tx_count: i32,
    pub block_size: i32,
    pub block_timestamp: i64,
    pub block_hash: String,
}

pub open spec fn fits_i32(v: int) -> bool {
    i32::MIN <= v && v <= i32::MAX
}

/// The row for `o`, or `WriteFailed` where a count does not fit its
/// `INTEGER` column.
pub fn metrics_row(o: &BlockObservation) -> (r: Result<MetricsRow, StorageError>)
    ensures
        (fits_i32(o.connection_count as int) && fits_i32(o.tx_count as int) && fits_i32(
            o.size_bytes as int,
        )) ==> r == Ok::<MetricsRow, StorageError>(
            MetricsRow {
                block_height: o.height,
                difficulty: o.difficulty,
                connection_count: o.connection_count as i32,
                tx_count: o.tx_count as i32,
                block_size: o.size_bytes as i32,
                block_timestamp: o.timestamp,
                block_hash: o.hash,
            },
        ),
        !(fits_i32(o.connection_count as int) && fits_i32(o.tx_count as int) && fits_i32(
            o.size_bytes as int,
        )) ==> r == Err::<MetricsRow, StorageError>(StorageError::WriteFailed),
{
    if o.connection_count > 2147483647u64 || o.tx_count > 2147483647u32 || o.size_bytes
        > 2147483647u32 {
        return Err(StorageError::WriteFailed);
    }
    Ok(
        MetricsRow {
            block_height: o.height,
            difficulty: o.difficulty.clone(),
            connection_count: o.connection_count as i32,
            tx_count: o.tx_count as i32,
            block_size: o.size_bytes as i32,
            block_timestamp: o.timestamp,
            block_hash: o.hash.clone(),
        },
    )
}

pub open spec fn connection_text(c: DatabaseConfig) -> Seq<char> {
    "host="@ + c.host@ + " port="@ + decimal_text(c.port as nat) + " user="@ + c.username@
        + " password="@ + c.password@ + " dbname="@ + c.database_name@
}

/// The key-value connection string for the store.
pub fn connection_string(c: &DatabaseConfig) -> (r: String)
    ensures
        r@ == connection_text(*c),
{
    let mut s = String::from_str("host=");
    s.append(c.host.as_str());
    s.append(" port=");
    append_decimal(&mut s, c.port as u64);
    s.append(" user=");
    s.append(c.username.as_str());
    s.append(" password=");
    s.append(c.password.as_str());
    s.append(" dbname=");
    s.append(c.database_name.as_str());
    s
}



/// How the first connection to the store is retried: the store may still be
/// starting when the process does.
pub const CONNECT_ATTEMPTS: u32 = 5;

pub const CONNECT_BASE_DELAY_MS: u64 = 1000;

pub fn connect_policy() -> (r: RetryPolicy)
    ensures
        r == (RetryPolicy { max_attempts: CONNECT_ATTEMPTS, base_delay_ms: CONNECT_BASE_DELAY_MS }),
{
    RetryPolicy::new(CONNECT_ATTEMPTS, CONNECT_BASE_DELAY_MS)
}

/// How many rows the read side serves.
pub const RECENT_LIMIT: usize = 100;

/// Heights strictly ascending: one row per height, in order.
pub open spec fn ascending(rows: Seq<BlockObservation>) -> bool {
    forall|i: int, j: int| 0 <= i < j < rows.len() ==> #[trigger] rows[i].height < #[trigger] rows[j].height
}

/// How many rows come before the first whose height is at least `h`.
pub open spec fn lower_bound(rows: Seq<BlockObservation>, h: i64) -> nat
    decreases rows.len(),
{
    if rows.len() == 0 || rows[0].height >= h {
        0
    } else {
        1 + lower_bound(rows.drop_first(), h)
    }
}

/// The rows after `o` is written: it replaces the row at its height, or is
/// placed in height order where there was none.
pub open spec fn upserted(rows: Seq<BlockObservation>, o: BlockObservation) -> Seq<BlockObservation> {
    let p = lower_bound(rows, o.height) as int;
    if p < rows.len() && rows[p].height == o.height {
        rows.update(p, o)
    } else {
        rows.insert(p, o)
    }
}

/// The newest `limit` rows, the highest height first.
pub open spec fn recent(rows: Seq<BlockObservation>, limit: nat) -> Seq<BlockObservation> {
    let k = if limit < rows.len() { limit } else { rows.len() };
    Seq::new(k, |i: int| rows[rows.len() - 1 - i])
}

proof fn lemma_lower_bound(rows: Seq<BlockObservation>, h: i64)
    ensures
        lower_bound(rows, h) <= rows.len(),
        forall|i: int| 0 <= i < lower_bound(rows, h) ==> #[trigger] rows[i].height < h,
        lower_bound(rows, h) < rows.len() ==> rows[lower_bound(rows, h) as int].height >= h,
    decreases rows.len(),
{
    if rows.len() > 0 && rows[0].height < h {
        let rest = rows.drop_first();
        lemma_lower_bound(rest, h);
        assert forall|i: int| 0 <= i < lower_bound(rows, h) implies #[trigger] rows[i].height < h by {
            if i > 0 {
                assert(rows[i] == rest[i - 1]);
            }
        }
    }
}

proof fn lemma_upserted_ascending(rows: Seq<BlockObservation>, o: BlockObservation)
    requires
        ascending(rows),
    ensures
        ascending(upserted(rows, o)),
        lower_bound(rows, o.height) < upserted(rows, o).len(),
        upserted(rows, o)[lower_bound(rows, o.height) as int] == o,
        lower_bound(upserted(rows, o), o.height) == lower_bound(rows, o.height),
{
    lemma_lower_bound(rows, o.height);
    let p = lower_bound(rows, o.height) as int;
    let r = upserted(rows, o);
    assert(ascending(r)) by {
        assert forall|i: int, j: int| 0 <= i < j < r.len() implies #[trigger] r[i].height
            < #[trigger] r[j].height by {
            if p < rows.len() && rows[p].height == o.height {
                if i != p && j != p {
                    assert(rows[i].height < rows[j].height);
                } else if i == p {
                    assert(rows[p].height < rows[j].height);
                } else {
                    assert(rows[i].height < rows[p].height);
                }
            } else {
                if j < p {
                    assert(rows[i].height < rows[j].height);
                } else if j == p {
                    assert(rows[i].height < o.height);
                } else if i == p {
                    assert(rows[j - 1].height >= o.height);
                    if j - 1 > p {
                        assert(rows[p].height < rows[j - 1].height);
                    }
                } else if i < p {
                    assert(rows[i].height < rows[j - 1].height);
                } else {
                    assert(rows[i - 1].height < rows[j - 1].height);
                }
            }
        }
    }
    lemma_lower_bound(r, o.height);
    let q = lower_bound(r, o.height) as int;
    if q < p {
        assert(r[q] == rows[q]);
    }
    if q > p {
        assert(r[p].height < o.height);
    }
}

/// Writing one observation twice leaves the rows as writing it once: `o`
/// itself is the one row at its height.
pub proof fn lemma_upsert_idempotent(rows: Seq<BlockObservation>, o: BlockObservation)
    requires
        ascending(rows),
    ensures
        upserted(upserted(rows, o), o) == upserted(rows, o),
        forall|i: int|
            0 <= i < upserted(rows, o).len() && #[trigger] upserted(rows, o)[i].height == o.height
                ==> upserted(rows, o)[i] == o,
        exists|i: int| 0 <= i < upserted(rows, o).len() && #[trigger] upserted(rows, o)[i] == o,
{
    lemma_upserted_ascending(rows, o);
    let p = lower_bound(rows, o.height) as int;
    let r = upserted(rows, o);
    assert(r[p] == o);
    assert(r.update(p, o) =~= r);
    assert forall|i: int| 0 <= i < r.len() && #[trigger] r[i].height == o.height implies r[i] == o by {
        if i < p {
            assert(r[i].height < r[p].height);
        } else if i > p {
            assert(r[p].height < r[i].height);
        }
    }
}

/// Observations kept in memory under the storage rule: one row per height,
/// the last write winning. A model of the `blockchain_metrics` table, not a
/// client of it: the running service writes through `UPSERT_SQL` instead.
pub struct ObservationStore {
    rows: Vec<BlockObservation>,
}

impl View for ObservationStore {
    type V = Seq<BlockObservation>;

    closed spec fn view(&self) -> Seq<BlockObservation> {
        self.rows@
    }
}

impl ObservationStore {
    pub open spec fn well_formed(&self) -> bool {
        ascending(self@)
    }

    pub fn new() -> (r: ObservationStore)
        ensures
            r@ == Seq::<BlockObservation>::empty(),
            r.well_formed(),
    {
        ObservationStore { rows: Vec::new() }
    }

    pub fn len(&self) -> (r: usize)
        ensures
            r == self@.len(),
    {
        self.rows.len()
    }

    /// Inserts `o`, or replaces the row at its height.
    pub fn upsert_observation(&mut self, o: BlockObservation)
        requires
            old(self).well_formed(),
        ensures
            final(self).well_formed(),
            final(self)@ == upserted(old(self)@, o),
    {
        let ghost before = self.rows@;
        proof {
            lemma_lower_bound(before, o.height);
            lemma_upserted_ascending(before, o);
        }
        let mut i: usize = 0;
        assert(before.skip(0) =~= before);
        while i < self.rows.len() && self.rows[i].height < o.height
            invariant
                self.rows@ == before,
                0 <= i <= before.len(),
                lower_bound(before, o.height) == i + lower_bound(before.skip(i as int), o.height),
            decreases before.len() - i,
        {
            assert(before.skip(i as int).drop_first() =~= before.skip(i + 1));
            assert(before.skip(i as int)[0] == before[i as int]);
            i = i + 1;
        }
        assert(lower_bound(before, o.height) == i) by {
            if i < before.len() {
                assert(before.skip(i as int)[0] == before[i as int]);
            }
        }
        if i < self.rows.len() && self.rows[i].height == o.height {
            self.rows.set(i, o);
        } else {
            self.rows.insert(i, o);
        }
    }

    /// The newest `limit` rows, the highest height first.
    pub fn read_recent(&self, limit: usize) -> (r: Vec<BlockObservation>)
        ensures
            r@ == recent(self@, limit as nat),
    {
        let n = self.rows.len();
        let k = if limit < n { limit } else { n };
        let mut out: Vec<BlockObservation> = Vec::new();
        let mut i: usize = 0;
        while i < k
            invariant
                n == self.rows@.len(),
                k <= n,
                k == recent(self@, limit as nat).len(),
                0 <= i <= k,
                out@ =~= recent(self@, limit as nat).take(i as int),
            decreases k - i,
        {
            out.push(self.rows[n - 1 - i].duplicate());
            i = i + 1;
        }
        assert(out@ =~= recent(self@, limit as nat));
        out
    }
}

} // verus!
