//! Batched durable storage of node and greenhouse snapshots.
//!
//! Snapshots accumulate in a `StorageWriter`; a flush is due when the
//! combined buffered count reaches `BATCH_SIZE`, or on the caller's fixed
//! timer when anything is buffered. `flush_batch` writes one batch as a
//! single transaction: per snapshot it idempotently ensures the identity and
//! catalog rows, then inserts one fact row per field with insert-or-ignore
//! semantics against the uniqueness constraint on (timestamp, entity, sensor
//! kind, aggregation kind) — re-inserting an identical row is a no-op. A
//! failing row is skipped and never aborts the transaction; a failure to
//! open, begin or commit abandons the batch and says which step failed.
//!
//! Values are rounded to two decimals strictly here, never upstream: the
//! verified pipeline turns a binary32 mean into the integer of hundredths
//! (`scaled2`), and the INSERT statement stores that integer divided by 100
//! as the REAL value.

use vstd::prelude::*;

use crate::aggregator::NodeAvg;
use crate::decoder::OUTDOOR_NODE_ID;
use crate::float_bits::b64_mul;
use crate::float_bits::b64_of_b32;
use crate::float_bits::b64_round_away;
use crate::float_bits::bits_to_i64;
use crate::float_bits::i64_of_b64;
use crate::float_bits::is_nan32;
use crate::float_bits::mul_bits;
use crate::float_bits::nan32;
use crate::float_bits::round_bits_away;
use crate::float_bits::widen_bits;
use crate::greenhouse_aggregator::GhAvg;

verus! {

/// Combined buffered-snapshot count that makes a flush due at once.
pub const BATCH_SIZE: usize = 512;

/// Interval of the caller's flush timer in milliseconds: a flush is also due
/// each time this much has elapsed with anything buffered.
pub const FLUSH_EVERY_MS: u64 = 1_000;

/// Bit pattern of the binary64 value one hundred.
pub const HUNDRED_BITS: u64 = 0x4059_0000_0000_0000;

/// Milliseconds since the Unix epoch, for fact-row timestamps.
///
/// Relies on `std::time::SystemTime::now`: the result depends on the wall
/// clock, so nothing is stated of it (a clock before the epoch yields zero
/// rather than a panic).
#[verifier::external_body]
pub fn now_ms() -> i64 {
    std::time::SystemTime::now()
        .duration_since(std::time::UNIX_EPOCH)
        .map_or(0, |d| d.as_millis() as i64)
}

/// The stable human label of a node id.
pub open spec fn spec_label(node_id: u16) -> Seq<char> {
    if node_id == OUTDOOR_NODE_ID {
        "Outdoor_Node"@
    } else if node_id == 1 {
        "node01"@
    } else if node_id == 2 {
        "node02"@
    } else if node_id == 3 {
        "node03"@
    } else if node_id == 4 {
        "node04"@
    } else if node_id == 5 {
        "node05"@
    } else if node_id == 6 {
        "node06"@
    } else if node_id == 7 {
        "node07"@
    } else if node_id == 8 {
        "node08"@
    } else if node_id == 9 {
        "node09"@
    } else if node_id == 10 {
        "node10"@
    } else if node_id == 11 {
        "node11"@
    } else if node_id == 12 {
        "node12"@
    } else {
        "nodeXX"@
    }
}

/// Map a node id to its stable human label; an unknown id maps to the
/// generic fallback label rather than failing.
pub fn label_for(node_id: u16) -> (r: &'static str)
    ensures
        r@ == spec_label(node_id),
{
    if node_id == OUTDOOR_NODE_ID {
        "Outdoor_Node"
    } else if node_id == 1 {
        "node01"
    } else if node_id == 2 {
        "node02"
    } else if node_id == 3 {
        "node03"
    } else if node_id == 4 {
        "node04"
    } else if node_id == 5 {
        "node05"
    } else if node_id == 6 {
        "node06"
    } else if node_id == 7 {
        "node07"
    } else if node_id == 8 {
        "node08"
    } else if node_id == 9 {
        "node09"
    } else if node_id == 10 {
        "node10"
    } else if node_id == 11 {
        "node11"
    } else if node_id == 12 {
        "node12"
    } else {
        "nodeXX"
    }
}

/// The integer of hundredths stored for a mean: the binary32 mean widened to
/// binary64, multiplied by one hundred, rounded to the nearest integer with
/// ties away from zero, then converted toward zero (saturating at the 64-bit
/// bounds). An absent mean stores as absent; so does a NaN bit pattern,
/// which the aggregators never produce.
pub open spec fn spec_scaled2(v: Option<u32>) -> Option<i64> {
    match v {
        Option::None => None,
        Option::Some(b) => if is_nan32(b) {
            None
        } else {
            Some(i64_of_b64(b64_round_away(b64_mul(b64_of_b32(b), HUNDRED_BITS))))
        },
    }
}

/// Executable form of `spec_scaled2`: the two-decimal rounding done at the
/// storage boundary.
pub fn scaled2(v: Option<u32>) -> (r: Option<i64>)
    ensures
        r == spec_scaled2(v),
{
    match v {
        Option::None => None,
        Option::Some(b) => {
            if nan32(b) {
                None
            } else {
                proof {
                    assert((0x4059_0000_0000_0000u64 >> 52) & 0x7ff != 0x7ff) by (bit_vector);
                    assert(0x4059_0000_0000_0000u64 & 0x7fff_ffff_ffff_ffff != 0) by (bit_vector);
                }
                let wide = widen_bits(b);
                let hundredfold = mul_bits(wide, HUNDRED_BITS);
                let rounded = round_bits_away(hundredfold);
                Some(bits_to_i64(rounded))
            }
        },
    }
}

/// Why a whole batch was abandoned. Single-row failures are skipped and
/// never abort the enclosing transaction, so they are not represented here.
#[derive(Clone, Copy, Debug, PartialEq, Eq, Structural)]
pub enum StorageError {
    OpenFailed,
    BeginFailed,
    CommitFailed,
}

#[verifier::external_type_specification]
#[verifier::external_body]
pub struct ExConnection(rusqlite::Connection);

/// Relies on `rusqlite::Connection::open`: opens the database file at
/// `path`, creating it when absent.
#[verifier::external_body]
fn open_db(path: &str) -> (r: Result<rusqlite::Connection, ()>) {
    rusqlite::Connection::open(path).map_err(|_| ())
}

/// Relies on `rusqlite::Connection::pragma_update`: sets one pragma on the
/// connection.
#[verifier::external_body]
fn set_pragma(conn: &rusqlite::Connection, name: &str, value: &str) -> (r: Result<(), ()>) {
    conn.pragma_update(None, name, value).map_err(|_| ())
}

/// Relies on `rusqlite::Connection::execute_batch`: runs the semicolon-
/// separated statements of `sql` (the schema, BEGIN, COMMIT).
#[verifier::external_body]
fn run_sql_batch(conn: &rusqlite::Connection, sql: &str) -> (r: Result<(), ()>) {
    conn.execute_batch(sql).map_err(|_| ())
}

/// Relies on `rusqlite::Connection::execute` running
/// `INSERT OR IGNORE INTO greenhouse_id(id) VALUES (?1)`: the greenhouse
/// identity row is created when absent and left alone otherwise.
#[verifier::external_body]
fn ensure_greenhouse(conn: &rusqlite::Connection, gh_id: u16) -> (r: Result<(), ()>) {
    conn.execute("INSERT OR IGNORE INTO greenhouse_id(id) VALUES (?1)", (gh_id,))
        .map(|_| ())
        .map_err(|_| ())
}

/// Relies on `rusqlite::Connection::execute` running `INSERT OR IGNORE INTO
/// node_name(greenhouse_id,node_id,label) VALUES (?1,?2,?3)`: the node
/// identity row is created when absent (unique per greenhouse and node id).
#[verifier::external_body]
fn insert_node_name(
    conn: &rusqlite::Connection,
    gh_id: u16,
    node_id: u16,
    label: &str,
) -> (r: Result<(), ()>) {
    conn.execute(
        "INSERT OR IGNORE INTO node_name(greenhouse_id,node_id,label) VALUES (?1,?2,?3)",
        (gh_id, node_id, label),
    ).map(|_| ()).map_err(|_| ())
}

/// Relies on `rusqlite::Connection::query_row` running `SELECT id FROM
/// node_name WHERE greenhouse_id=?1 AND node_id=?2`: yields the row id of
/// the node identity row.
#[verifier::external_body]
fn query_node_rowid(conn: &rusqlite::Connection, gh_id: u16, node_id: u16) -> (r: Result<
    i64,
    (),
>) {
    conn.query_row(
        "SELECT id FROM node_name WHERE greenhouse_id=?1 AND node_id=?2",
        (gh_id, node_id),
        |row| row.get(0),
    ).map_err(|_| ())
}

/// Relies on `rusqlite::Connection::execute` running `INSERT OR IGNORE INTO
/// sensor_type(key,unit) VALUES (?1,?2)`: the sensor catalog row is created
/// when absent (the key is unique).
#[verifier::external_body]
fn insert_sensor_type(conn: &rusqlite::Connection, key: &str, unit: &str) -> (r: Result<
    (),
    (),
>) {
    conn.execute("INSERT OR IGNORE INTO sensor_type(key,unit) VALUES (?1,?2)", (key, unit))
        .map(|_| ())
        .map_err(|_| ())
}

/// Relies on `rusqlite::Connection::query_row` running `SELECT id FROM
/// sensor_type WHERE key=?1`: yields the row id of the sensor catalog row.
#[verifier::external_body]
fn query_sensor_rowid(conn: &rusqlite::Connection, key: &str) -> (r: Result<i64, ()>) {
    conn.query_row("SELECT id FROM sensor_type WHERE key=?1", (key,), |row| row.get(0))
        .map_err(|_| ())
}

/// Relies on `rusqlite::Connection::execute` running an `INSERT OR IGNORE`
/// into `node_values`: stores one per-node fact row whose REAL value is the
/// scaled integer divided by one hundred (NULL stays NULL), under the
/// uniqueness constraint on (ts_ms, node_id, sensor_type_id, agg), so an
/// identical row inserts as a no-op.
#[verifier::external_body]
fn insert_node_value(
    conn: &rusqlite::Connection,
    ts: i64,
    node_rowid: i64,
    sensor_id: i64,
    scaled: Option<i64>,
) -> (r: Result<(), ()>) {
    conn.execute(
        "INSERT OR IGNORE INTO node_values(ts_ms,node_id,sensor_type_id,value,agg,window_sec)
         VALUES (?1,?2,?3,CAST(?4 AS REAL)/100,'rolling_60s',60)",
        (ts, node_rowid, sensor_id, scaled),
    ).map(|_| ()).map_err(|_| ())
}

/// Relies on `rusqlite::Connection::execute` running an `INSERT OR IGNORE`
/// into `greenhouse_average`: stores one per-greenhouse fact row (value as
/// in `insert_node_value`, plus the contributing node count), under the
/// uniqueness constraint on (ts_ms, greenhouse_id, sensor_type_id, agg).
#[verifier::external_body]
fn insert_gh_value(
    conn: &rusqlite::Connection,
    ts: i64,
    gh_id: u16,
    sensor_id: i64,
    scaled: Option<i64>,
    nodes: usize,
) -> (r: Result<(), ()>) {
    conn.execute(
        "INSERT OR IGNORE INTO greenhouse_average(ts_ms,greenhouse_id,sensor_type_id,value,nodes,agg,window_sec)
         VALUES (?1,?2,?3,CAST(?4 AS REAL)/100,?5,'rolling_60s',60)",
        (ts, gh_id, sensor_id, scaled, nodes as i64),
    ).map(|_| ()).map_err(|_| ())
}

/// Open the store at `path` and ensure its durability settings and schema:
/// foreign keys on, write-ahead logging, normal synchronization, the five
/// tables, and the timestamp indexes on both fact tables. Any failure here
/// counts as a failure to open. The caller creates the parent directory.
pub fn open_and_init(path: &str) -> (r: Result<rusqlite::Connection, StorageError>)
    ensures
        r matches Err(e) ==> e == StorageError::OpenFailed,
{
    let conn = match open_db(path) {
        Ok(c) => c,
        Err(_) => { return Err(StorageError::OpenFailed) },
    };
    if set_pragma(&conn, "foreign_keys", "ON").is_err() {
        return Err(StorageError::OpenFailed);
    }
    if set_pragma(&conn, "journal_mode", "WAL").is_err() {
        return Err(StorageError::OpenFailed);
    }
    if set_pragma(&conn, "synchronous", "NORMAL").is_err() {
        return Err(StorageError::OpenFailed);
    }
    let schema = "
      CREATE TABLE IF NOT EXISTS greenhouse_id (
        id INTEGER PRIMARY KEY
      );
      CREATE TABLE IF NOT EXISTS sensor_type (
        id INTEGER PRIMARY KEY AUTOINCREMENT,
        key TEXT NOT NULL UNIQUE,
        unit TEXT NOT NULL
      );
      CREATE TABLE IF NOT EXISTS greenhouse_average (
        id INTEGER PRIMARY KEY AUTOINCREMENT,
        ts_ms INTEGER NOT NULL,
        greenhouse_id INTEGER NOT NULL,
        sensor_type_id INTEGER NOT NULL,
        value REAL,
        nodes INTEGER NOT NULL,
        agg TEXT NOT NULL,
        window_sec INTEGER NOT NULL,
        UNIQUE(ts_ms, greenhouse_id, sensor_type_id, agg),
        FOREIGN KEY (greenhouse_id) REFERENCES greenhouse_id(id) ON DELETE CASCADE,
        FOREIGN KEY (sensor_type_id) REFERENCES sensor_type(id) ON DELETE RESTRICT
      );
      CREATE TABLE IF NOT EXISTS node_name (
        id INTEGER PRIMARY KEY AUTOINCREMENT,
        greenhouse_id INTEGER NOT NULL,
        node_id INTEGER NOT NULL,
        label TEXT NOT NULL,
        UNIQUE(greenhouse_id, node_id),
        FOREIGN KEY (greenhouse_id) REFERENCES greenhouse_id(id) ON DELETE CASCADE
      );
      CREATE TABLE IF NOT EXISTS node_values (
        id INTEGER PRIMARY KEY AUTOINCREMENT,
        ts_ms INTEGER NOT NULL,
        node_id INTEGER NOT NULL,
        sensor_type_id INTEGER NOT NULL,
        value REAL,
        agg TEXT NOT NULL,
        window_sec INTEGER NOT NULL,
        UNIQUE(ts_ms, node_id, sensor_type_id, agg),
        FOREIGN KEY (node_id) REFERENCES node_name(id) ON DELETE CASCADE,
        FOREIGN KEY (sensor_type_id) REFERENCES sensor_type(id) ON DELETE RESTRICT
      );
      CREATE INDEX IF NOT EXISTS idx_node_values_ts ON node_values(ts_ms);
      CREATE INDEX IF NOT EXISTS idx_ghavg_ts ON greenhouse_average(ts_ms);
    ";
    if run_sql_batch(&conn, schema).is_err() {
        return Err(StorageError::OpenFailed);
    }
    Ok(conn)
}

/// Idempotently ensure the greenhouse and node identity rows exist and hand
/// back the node's row id.
fn ensure_node(conn: &rusqlite::Connection, gh_id: u16, node_id: u16, label: &str) -> (r: Result<
    i64,
    (),
>) {
    match ensure_greenhouse(conn, gh_id) {
        Ok(_) => {},
        Err(_) => { return Err(()) },
    }
    match insert_node_name(conn, gh_id, node_id, label) {
        Ok(_) => {},
        Err(_) => { return Err(()) },
    }
    query_node_rowid(conn, gh_id, node_id)
}

/// Idempotently ensure the sensor catalog row exists and hand back its id.
fn ensure_sensor(conn: &rusqlite::Connection, key: &str, unit: &str) -> (r: Result<i64, ()>) {
    match insert_sensor_type(conn, key, unit) {
        Ok(_) => {},
        Err(_) => { return Err(()) },
    }
    query_sensor_rowid(conn, key)
}

/// Write one per-node fact row: ensure the sensor catalog row, round the
/// value to hundredths, insert with insert-or-ignore semantics. A failure
/// skips this row only.
fn insert_node_field(
    conn: &rusqlite::Connection,
    ts: i64,
    node_rowid: i64,
    key: &str,
    unit: &str,
    val: Option<u32>,
) {
    match ensure_sensor(conn, key, unit) {
        Ok(sensor_id) => {
            let _ = insert_node_value(conn, ts, node_rowid, sensor_id, scaled2(val));
        },
        Err(_) => {},
    }
}

/// Write one per-greenhouse fact row, with the contributing node count; as
/// `insert_node_field`, a failure skips this row only.
fn insert_gh_field(
    conn: &rusqlite::Connection,
    ts: i64,
    gh_id: u16,
    key: &str,
    unit: &str,
    val: Option<u32>,
    nodes: usize,
) {
    match ensure_greenhouse(conn, gh_id) {
        Ok(_) => {},
        Err(_) => { return },
    }
    match ensure_sensor(conn, key, unit) {
        Ok(sensor_id) => {
            let _ = insert_gh_value(conn, ts, gh_id, sensor_id, scaled2(val), nodes);
        },
        Err(_) => {},
    }
}

/// Flush one batch as a single transaction at timestamp `ts`: per node
/// snapshot, ensure the identity rows and insert the fifteen fact rows; per
/// greenhouse snapshot, the same against the greenhouse fact table. An empty
/// batch is a no-op. A failing row is skipped and the transaction still
/// commits; failing to open the store, begin, or commit abandons the whole
/// batch and reports which step failed.
pub fn flush_batch(
    db_path: &str,
    ts: i64,
    batch_nodes: &Vec<NodeAvg>,
    batch_gh: &Vec<GhAvg>,
) -> (r: Result<(), StorageError>)
    ensures
        batch_nodes@.len() == 0 && batch_gh@.len() == 0 ==> r is Ok,
{
    if batch_nodes.len() == 0 && batch_gh.len() == 0 {
        return Ok(());
    }
    let conn = match open_and_init(db_path) {
        Ok(c) => c,
        Err(e) => { return Err(e) },
    };
    if run_sql_batch(&conn, "BEGIN").is_err() {
        return Err(StorageError::BeginFailed);
    }
    let n = batch_nodes.len();
    for i in 0..n
        invariant
            n == batch_nodes@.len(),
    {
        let na = &batch_nodes[i];
        match ensure_node(&conn, na.greenhouse_id, na.node_id, label_for(na.node_id)) {
            Ok(rowid) => {
                insert_node_field(&conn, ts, rowid, "air_temp_c", "C", na.air_temp_c);
                insert_node_field(&conn, ts, rowid, "leaf_temp_c", "C", na.leaf_temp_c);
                insert_node_field(&conn, ts, rowid, "bag_temp_c", "C", na.bag_temp_c);
                insert_node_field(&conn, ts, rowid, "air_rh_pct", "%", na.air_rh_pct);
                insert_node_field(&conn, ts, rowid, "bag_rh1_pct", "%", na.bag_rh1_pct);
                insert_node_field(&conn, ts, rowid, "bag_rh2_pct", "%", na.bag_rh2_pct);
                insert_node_field(&conn, ts, rowid, "bag_rh3_pct", "%", na.bag_rh3_pct);
                insert_node_field(&conn, ts, rowid, "bag_rh4_pct", "%", na.bag_rh4_pct);
                insert_node_field(&conn, ts, rowid, "bag_rh_avg_pct", "%", na.bag_rh_avg_pct);
                insert_node_field(&conn, ts, rowid, "par_value", "", na.par_value);
                insert_node_field(&conn, ts, rowid, "weight_g", "", na.weight_g);
                insert_node_field(&conn, ts, rowid, "ea_air_kpa", "kPa", na.ea_air_kpa);
                insert_node_field(&conn, ts, rowid, "ea_leaf_kpa", "kPa", na.ea_leaf_kpa);
                insert_node_field(&conn, ts, rowid, "es_kpa", "kPa", na.es_kpa);
                insert_node_field(&conn, ts, rowid, "vpd_kpa", "kPa", na.vpd_kpa);
            },
            Err(_) => {},
        }
    }
    let m = batch_gh.len();
    for i in 0..m
        invariant
            m == batch_gh@.len(),
    {
        let ga = &batch_gh[i];
        insert_gh_field(&conn, ts, ga.greenhouse_id, "air_temp_c", "C", ga.air_temp_c, ga.nodes);
        insert_gh_field(&conn, ts, ga.greenhouse_id, "leaf_temp_c", "C", ga.leaf_temp_c, ga.nodes);
        insert_gh_field(&conn, ts, ga.greenhouse_id, "bag_temp_c", "C", ga.bag_temp_c, ga.nodes);
        insert_gh_field(&conn, ts, ga.greenhouse_id, "air_rh_pct", "%", ga.air_rh_pct, ga.nodes);
        insert_gh_field(&conn, ts, ga.greenhouse_id, "bag_rh1_pct", "%", ga.bag_rh1_pct, ga.nodes);
        insert_gh_field(&conn, ts, ga.greenhouse_id, "bag_rh2_pct", "%", ga.bag_rh2_pct, ga.nodes);
        insert_gh_field(&conn, ts, ga.greenhouse_id, "bag_rh3_pct", "%", ga.bag_rh3_pct, ga.nodes);
        insert_gh_field(&conn, ts, ga.greenhouse_id, "bag_rh4_pct", "%", ga.bag_rh4_pct, ga.nodes);
        insert_gh_field(
            &conn,
            ts,
            ga.greenhouse_id,
            "bag_rh_avg_pct",
            "%",
            ga.bag_rh_avg_pct,
            ga.nodes,
        );
        insert_gh_field(&conn, ts, ga.greenhouse_id, "par_value", "", ga.par_value, ga.nodes);
        insert_gh_field(&conn, ts, ga.greenhouse_id, "weight_g", "", ga.weight_g, ga.nodes);
        insert_gh_field(&conn, ts, ga.greenhouse_id, "ea_air_kpa", "kPa", ga.ea_air_kpa, ga.nodes);
        insert_gh_field(
            &conn,
            ts,
            ga.greenhouse_id,
            "ea_leaf_kpa",
            "kPa",
            ga.ea_leaf_kpa,
            ga.nodes,
        );
        insert_gh_field(&conn, ts, ga.greenhouse_id, "es_kpa", "kPa", ga.es_kpa, ga.nodes);
        insert_gh_field(&conn, ts, ga.greenhouse_id, "vpd_kpa", "kPa", ga.vpd_kpa, ga.nodes);
    }
    if run_sql_batch(&conn, "COMMIT").is_err() {
        return Err(StorageError::CommitFailed);
    }
    Ok(())
}

/// Buffers incoming snapshots between flushes. The owner drains it with
/// `take_batches` whenever a push reports the threshold reached or the flush
/// timer fires with anything pending, and hands the drained batches to
/// `flush_batch` on a blocking-work context.
pub struct StorageWriter {
    pub batch_nodes: Vec<NodeAvg>,
    pub batch_gh: Vec<GhAvg>,
}

impl StorageWriter {
    /// A writer with empty buffers.
    pub fn new() -> (w: StorageWriter)
        ensures
            w.batch_nodes@.len() == 0,
            w.batch_gh@.len() == 0,
    {
        StorageWriter { batch_nodes: Vec::new(), batch_gh: Vec::new() }
    }

    /// Buffer one node snapshot; true exactly when the combined buffered
    /// count has reached the batch threshold, asking for an immediate flush
    /// independent of the timer.
    pub fn push_node(&mut self, na: NodeAvg) -> (flush_now: bool)
        ensures
            final(self).batch_nodes@ == old(self).batch_nodes@.push(na),
            final(self).batch_gh@ == old(self).batch_gh@,
            flush_now == (final(self).batch_nodes@.len() + final(self).batch_gh@.len()
                >= BATCH_SIZE),
    {
        self.batch_nodes.push(na);
        self.batch_nodes.len() as u128 + self.batch_gh.len() as u128 >= BATCH_SIZE as u128
    }

    /// Buffer one greenhouse snapshot; the flush signal as in `push_node`.
    pub fn push_gh(&mut self, ga: GhAvg) -> (flush_now: bool)
        ensures
            final(self).batch_gh@ == old(self).batch_gh@.push(ga),
            final(self).batch_nodes@ == old(self).batch_nodes@,
            flush_now == (final(self).batch_nodes@.len() + final(self).batch_gh@.len()
                >= BATCH_SIZE),
    {
        self.batch_gh.push(ga);
        self.batch_nodes.len() as u128 + self.batch_gh.len() as u128 >= BATCH_SIZE as u128
    }

    /// Whether anything is buffered: the timer flush fires only then.
    pub fn has_pending(&self) -> (r: bool)
        ensures
            r == (self.batch_nodes@.len() > 0 || self.batch_gh@.len() > 0),
    {
        self.batch_nodes.len() > 0 || self.batch_gh.len() > 0
    }

    /// Hand out the buffered batches for flushing, leaving both buffers
    /// empty.
    pub fn take_batches(&mut self) -> (r: (Vec<NodeAvg>, Vec<GhAvg>))
        ensures
            r.0@ == old(self).batch_nodes@,
            r.1@ == old(self).batch_gh@,
            final(self).batch_nodes@.len() == 0,
            final(self).batch_gh@.len() == 0,
    {
        let mut nodes: Vec<NodeAvg> = Vec::new();
        let mut gh: Vec<GhAvg> = Vec::new();
        core::mem::swap(&mut nodes, &mut self.batch_nodes);
        core::mem::swap(&mut gh, &mut self.batch_gh);
        (nodes, gh)
    }
}

} // verus!
