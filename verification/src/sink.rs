//! Outcome persistence: one durable row per attempt, appended to a SQLite
//! metrics table through a single shared connection. The sink keeps a ghost
//! log of every row it has successfully inserted, so callers can reason
//! about exactly which records were persisted.

use vstd::prelude::*;

verus! {

/// Declares rusqlite's connection handle so it can sit in a field; its
/// values are opaque here and only touched through the trusted wrappers
/// below.
#[verifier::external_type_specification]
#[verifier::external_body]
pub struct ExConnection(rusqlite::Connection);

/// Declares rusqlite's error type; it is opaque here and mapped to this
/// crate's own error values as soon as a wrapper returns it.
#[verifier::external_type_specification]
#[verifier::external_body]
pub struct ExRusqliteError(rusqlite::Error);

/// Mathematical view of one persisted outcome row.
pub struct RecordModel {
    pub timestamp: int,
    pub target_host: Seq<char>,
    pub payload: Seq<char>,
    pub success: bool,
}

/// One attempt's outcome: when it happened, which host it went to, what was
/// sent, and whether the connect-and-write succeeded. Records are append-only.
pub struct OutcomeRecord {
    /// Seconds since the Unix epoch at the time the outcome was observed.
    pub timestamp: i64,
    /// Host of the target the attempt went to.
    pub target_host: String,
    /// The payload that was sent (or meant to be sent).
    pub payload: String,
    /// Whether both the connect and the full write succeeded.
    pub success: bool,
}

impl View for OutcomeRecord {
    type V = RecordModel;

    open spec fn view(&self) -> RecordModel {
        RecordModel {
            timestamp: self.timestamp as int,
            target_host: self.target_host@,
            payload: self.payload@,
            success: self.success,
        }
    }
}

/// The metrics store could not be opened or prepared at run start; fatal.
#[derive(Clone, Copy, Debug, PartialEq, Eq, Structural)]
pub enum StoreInitError {
    /// The database file could not be opened or created.
    OpenFailed,
    /// The metrics table could not be ensured.
    SchemaFailed,
}

/// One outcome row could not be persisted; the run continues.
#[derive(Clone, Copy, Debug, PartialEq, Eq, Structural)]
pub struct PersistError;

/// Relies on rusqlite's `Connection::open`: opens the database file at
/// `path`, creating it when missing.
#[verifier::external_body]
fn open_connection(path: &str) -> (r: Result<rusqlite::Connection, rusqlite::Error>) {
    rusqlite::Connection::open(path)
}

/// Relies on rusqlite's `Connection::execute`: runs one idempotent
/// `CREATE TABLE IF NOT EXISTS` statement for the metrics table.
#[verifier::external_body]
fn create_metrics_table(conn: &rusqlite::Connection) -> (r: Result<usize, rusqlite::Error>) {
    conn.execute(
        "CREATE TABLE IF NOT EXISTS metrics (
            id INTEGER PRIMARY KEY,
            timestamp INTEGER NOT NULL,
            ip TEXT NOT NULL,
            payload TEXT NOT NULL,
            success BOOLEAN NOT NULL
        )",
        (),
    )
}

/// Relies on rusqlite's `Connection::execute`: inserts one row into the
/// metrics table; on success SQLite reports exactly one changed row.
#[verifier::external_body]
fn insert_metric_row(
    conn: &rusqlite::Connection,
    timestamp: i64,
    ip: &str,
    payload: &str,
    success: bool,
) -> (r: Result<usize, rusqlite::Error>)
    ensures
        r matches Ok(n) ==> n == 1,
{
    conn.execute(
        "INSERT INTO metrics (timestamp, ip, payload, success) VALUES (?1, ?2, ?3, ?4)",
        (timestamp, ip, payload, success),
    )
}

/// The durable outcome store: a single connection shared (under the caller's
/// mutual exclusion) by every concurrent send unit, plus the ghost log of the
/// rows this sink has inserted.
pub struct MetricsSink {
    conn: rusqlite::Connection,
    history: Ghost<Seq<RecordModel>>,
}

impl MetricsSink {
    /// The rows this sink has successfully appended, oldest first.
    pub closed spec fn log(self) -> Seq<RecordModel> {
        self.history@
    }

    /// Open the store at `path` (creating the file when missing) and ensure
    /// the metrics table exists: an idempotent schema-ensure, safe to run
    /// against an existing store. A failure of either step is fatal to run
    /// setup and names the step that failed.
    pub fn new(path: &str) -> (r: Result<MetricsSink, StoreInitError>)
        ensures
            r matches Ok(s) ==> s.log() == Seq::<RecordModel>::empty(),
    {
        match open_connection(path) {
            Ok(conn) => {
                match create_metrics_table(&conn) {
                    Ok(_) => Ok(MetricsSink { conn, history: Ghost(Seq::empty()) }),
                    Err(_) => Err(StoreInitError::SchemaFailed),
                }
            },
            Err(_) => Err(StoreInitError::OpenFailed),
        }
    }

    /// Append one outcome row. On success the sink's log grows by exactly
    /// this record; on a persist failure the log is unchanged and the error
    /// is reported to the caller, never escalated: the attempt it describes
    /// already happened.
    pub fn record(&mut self, rec: &OutcomeRecord) -> (r: Result<(), PersistError>)
        ensures
            r is Ok ==> final(self).log() == old(self).log().push(rec@),
            r is Err ==> final(self).log() == old(self).log(),
    {
        let outcome = insert_metric_row(
            &self.conn,
            rec.timestamp,
            rec.target_host.as_str(),
            rec.payload.as_str(),
            rec.success,
        );
        match outcome {
            Ok(_) => {
                self.history = Ghost(self.history@.push(rec@));
                Ok(())
            },
            Err(_) => Err(PersistError),
        }
    }
}

} // verus!
