//! Storage access. Every call into SQLite goes through the small set of
//! trusted wrappers at the top of this module; the query construction and
//! all decisions on what came back are verified. Connections are opened per
//! operation and never cached.

use vstd::prelude::*;
use vstd::string::{StrSliceExecFns, StringExecFns};

use crate::engine::{
    batch_outcomes, lemma_batch_outcome_shape, row_views, Mapping, Outcome, OutcomeView,
};
use crate::errors::{BatchError, StorageError};

verus! {

#[verifier::external_type_specification]
#[verifier::external_body]
pub struct ExConnection(rusqlite::Connection);

#[verifier::external_type_specification]
#[verifier::external_body]
pub struct ExSqliteError(rusqlite::Error);

/// Relies on rusqlite::Error's `Display` impl for a readable message.
#[verifier::external_body]
fn to_storage_err(e: rusqlite::Error) -> StorageError {
    StorageError { message: format!("{}", e) }
}

/// Relies on rusqlite::Connection::open: opens, creating the file if it is
/// absent, the SQLite database at `path`; fails if it cannot be opened.
#[verifier::external_body]
pub(crate) fn open_connection(path: &str) -> Result<rusqlite::Connection, StorageError> {
    rusqlite::Connection::open(path).map_err(to_storage_err)
}

/// Relies on rusqlite::Connection::execute and rusqlite::params_from_iter:
/// runs one SQL statement with positional text parameters and reports the
/// number of rows changed.
#[verifier::external_body]
pub(crate) fn sql_execute(conn: &rusqlite::Connection, sql: &str, args: &Vec<String>) -> Result<
    usize,
    StorageError,
> {
    conn.execute(sql, rusqlite::params_from_iter(args.iter())).map_err(to_storage_err)
}

/// Relies on rusqlite::Connection::prepare, Statement::query, Rows::next and
/// Row::get: runs the query and hands back the first column of its first
/// row, or `None` when no row matches.
#[verifier::external_body]
pub(crate) fn sql_query_single(
    conn: &rusqlite::Connection,
    sql: &str,
    args: &Vec<String>,
) -> Result<Option<String>, StorageError> {
    let mut stmt = conn.prepare(sql).map_err(to_storage_err)?;
    let mut rows = stmt.query(rusqlite::params_from_iter(args.iter())).map_err(to_storage_err)?;
    match rows.next().map_err(to_storage_err)? {
        Some(row) => Ok(Some(row.get(0).map_err(to_storage_err)?)),
        None => Ok(None),
    }
}

/// Relies on the same rusqlite calls as `sql_query_single`, reading every
/// row's first two columns as the uid and phone number of one `Mapping`.
#[verifier::external_body]
pub(crate) fn sql_query_mappings(
    conn: &rusqlite::Connection,
    sql: &str,
    args: &Vec<String>,
) -> Result<Vec<Mapping>, StorageError> {
    let mut stmt = conn.prepare(sql).map_err(to_storage_err)?;
    let mut rows = stmt.query(rusqlite::params_from_iter(args.iter())).map_err(to_storage_err)?;
    let mut out: Vec<Mapping> = Vec::new();
    loop {
        match rows.next().map_err(to_storage_err)? {
            Some(row) => {
                let uid: String = row.get(0).map_err(to_storage_err)?;
                let phone_number: String = row.get(1).map_err(to_storage_err)?;
                out.push(Mapping { uid, phone_number });
            },
            None => {
                return Ok(out);
            },
        }
    }
}

/// Relies on the same rusqlite calls, reading one integer cell (a COUNT or a
/// probe constant): the first row's first column, if any row came back.
#[verifier::external_body]
pub(crate) fn sql_query_int(conn: &rusqlite::Connection, sql: &str) -> Result<
    Option<i64>,
    StorageError,
> {
    let mut stmt = conn.prepare(sql).map_err(to_storage_err)?;
    let mut rows = stmt.query([]).map_err(to_storage_err)?;
    match rows.next().map_err(to_storage_err)? {
        Some(row) => Ok(Some(row.get(0).map_err(to_storage_err)?)),
        None => Ok(None),
    }
}

/// Relies on std::path::Path::exists: whether `p` names an existing
/// filesystem entry.
#[verifier::external_body]
pub(crate) fn path_exists(p: &str) -> bool {
    std::path::Path::new(p).exists()
}

/// Create the mapping table and its two uniqueness indexes if absent.
/// Idempotent (`IF NOT EXISTS` throughout): safe on every startup and after
/// every storage-location switch.
pub fn initialize_database(conn: &rusqlite::Connection) -> (r: Result<(), StorageError>) {
    let no_args: Vec<String> = Vec::new();
    let _n = sql_execute(
        conn,
        "CREATE TABLE IF NOT EXISTS user_mapping (uid TEXT NOT NULL, phone_number TEXT NOT NULL, UNIQUE(uid, phone_number))",
        &no_args,
    )?;
    let _n = sql_execute(
        conn,
        "CREATE UNIQUE INDEX IF NOT EXISTS idx_uid ON user_mapping (uid)",
        &no_args,
    )?;
    let _n = sql_execute(
        conn,
        "CREATE UNIQUE INDEX IF NOT EXISTS idx_phone ON user_mapping (phone_number)",
        &no_args,
    )?;
    Ok(())
}

/// Combine the two column probes for `id` into its outcome: a uid hit wins,
/// then a phone hit, else `NotFound`. The probes' results are parameters, so
/// the decision is verified for every value the storage layer can hand back.
pub fn outcome_from_columns(
    id: &str,
    phone_for_uid: Option<String>,
    uid_for_phone: Option<String>,
) -> (r: Outcome)
    ensures
        phone_for_uid matches Some(p) ==> r@ == (OutcomeView::FoundByUid {
            uid: id@,
            phone_number: p@,
        }),
        phone_for_uid is None ==> (uid_for_phone matches Some(u) ==> r@
            == (OutcomeView::FoundByPhone { uid: u@, phone_number: id@ })),
        phone_for_uid is None && uid_for_phone is None ==> r@ == OutcomeView::NotFound,
{
    match phone_for_uid {
        Some(p) => Outcome::FoundByUid { uid: id.to_owned(), phone_number: p },
        None => match uid_for_phone {
            Some(u) => Outcome::FoundByPhone { uid: u, phone_number: id.to_owned() },
            None => Outcome::NotFound,
        },
    }
}

/// Resolve one identifier against the live table: an exact probe of the uid
/// column and, only on a miss, of the phone column. A storage failure is
/// surfaced as an error, distinct from `NotFound`; no retries.
pub fn lookup_one(conn: &rusqlite::Connection, id: &str) -> (r: Result<Outcome, StorageError>)
    ensures
        r matches Ok(o) ==> (o@ matches OutcomeView::FoundByUid { uid, .. } ==> uid == id@),
        r matches Ok(o) ==> (o@ matches OutcomeView::FoundByPhone { phone_number, .. }
            ==> phone_number == id@),
{
    let mut args: Vec<String> = Vec::new();
    args.push(id.to_owned());
    let by_uid = sql_query_single(
        conn,
        "SELECT phone_number FROM user_mapping WHERE uid = ?1",
        &args,
    )?;
    match by_uid {
        Some(phone) => Ok(outcome_from_columns(id, Some(phone), None)),
        None => {
            let by_phone = sql_query_single(
                conn,
                "SELECT uid FROM user_mapping WHERE phone_number = ?1",
                &args,
            )?;
            Ok(outcome_from_columns(id, None, by_phone))
        },
    }
}

/// The text of `n` comma-separated statement placeholders.
pub open spec fn placeholders_spec(n: nat) -> Seq<char>
    decreases n,
{
    if n <= 1 {
        "?"@
    } else {
        placeholders_spec((n - 1) as nat) + ",?"@
    }
}

/// Build the placeholder list for `n` bound parameters.
fn build_placeholders(n: usize) -> (r: String)
    requires
        n >= 1,
    ensures
        r@ == placeholders_spec(n as nat),
{
    let mut s: String = "?".to_owned();
    let mut i: usize = 1;
    while i < n
        invariant
            1 <= i <= n,
            s@ == placeholders_spec(i as nat),
        decreases n - i,
    {
        s.append(",?");
        i = i + 1;
    }
    s
}

/// The one-round-trip batch query: both columns probed against the same
/// identifier list.
pub open spec fn batch_sql_spec(n: nat) -> Seq<char> {
    "SELECT uid, phone_number FROM user_mapping WHERE uid IN ("@ + placeholders_spec(n)
        + ") OR phone_number IN ("@ + placeholders_spec(n) + ")"@
}

/// Build the batch query for `n` identifiers.
fn build_batch_sql(n: usize) -> (r: String)
    requires
        n >= 1,
    ensures
        r@ == batch_sql_spec(n as nat),
{
    let ph = build_placeholders(n);
    let mut s: String = "SELECT uid, phone_number FROM user_mapping WHERE uid IN (".to_owned();
    s.append(ph.as_str());
    s.append(") OR phone_number IN (");
    s.append(ph.as_str());
    s.append(")");
    proof {
        assert(s@ =~= batch_sql_spec(n as nat));
    }
    s
}

/// The parameter list for the batch query: the identifiers, twice over,
/// once per probed column.
fn duplicate_args(ids: &Vec<String>) -> (r: Vec<String>)
    ensures
        r@.len() == 2 * ids@.len(),
        forall|j: int|
            0 <= j < ids@.len() ==> (#[trigger] r@[j])@ == ids@[j]@ && r@[ids@.len() + j]@
                == ids@[j]@,
{
    let mut out: Vec<String> = Vec::new();
    let n = ids.len();
    let mut i: usize = 0;
    while i < n
        invariant
            i <= n,
            n == ids@.len(),
            out@.len() == i,
            forall|j: int| 0 <= j < i ==> (#[trigger] out@[j])@ == ids@[j]@,
        decreases n - i,
    {
        out.push(ids[i].clone());
        i = i + 1;
    }
    let mut i: usize = 0;
    while i < n
        invariant
            i <= n,
            n == ids@.len(),
            out@.len() == n + i,
            forall|j: int| 0 <= j < n ==> (#[trigger] out@[j])@ == ids@[j]@,
            forall|j: int| 0 <= j < i ==> (#[trigger] out@[n + j])@ == ids@[j]@,
        decreases n - i,
    {
        out.push(ids[i].clone());
        i = i + 1;
    }
    out
}

/// Resolve a whole batch in one storage round trip. A batch above `limit` is
/// rejected before any query is built or sent; an empty batch yields an
/// empty result without touching storage. Each outcome carries the queried
/// identifier in its matched role, outcomes come in input order, and a
/// repeated identifier resolves alike at every occurrence.
pub fn batch_lookup(conn: &rusqlite::Connection, ids: &Vec<String>, limit: u32) -> (r: Result<
    Vec<Outcome>,
    BatchError,
>)
    ensures
        ids@.len() > limit ==> r == Err::<Vec<Outcome>, BatchError>(BatchError::TooLarge),
        r matches Err(e) ==> (e is TooLarge ==> ids@.len() > limit),
        r matches Ok(out) ==> ids@.len() <= limit && out@.len() == ids@.len(),
        r matches Ok(out) ==> (forall|i: int, j: int|
            0 <= i < ids@.len() && 0 <= j < ids@.len() && ids@[i]@ == ids@[j]@ ==> (
            #[trigger] out@[i])@ == (#[trigger] out@[j])@),
        r matches Ok(out) ==> (forall|i: int|
            0 <= i < ids@.len() ==> (((#[trigger] out@[i])@ matches OutcomeView::FoundByUid {
                uid,
                ..
            } ==> uid == ids@[i]@) && (out@[i]@ matches OutcomeView::FoundByPhone {
                phone_number,
                ..
            } ==> phone_number == ids@[i]@))),
        ids@.len() == 0 ==> (r matches Ok(out) && out@.len() == 0),
{
    if (ids.len() as u64) > (limit as u64) {
        return Err(BatchError::TooLarge);
    }
    if ids.len() == 0 {
        return Ok(Vec::new());
    }
    let sql = build_batch_sql(ids.len());
    let params = duplicate_args(ids);
    let fetched = match sql_query_mappings(conn, sql.as_str(), &params) {
        Ok(rows) => rows,
        Err(e) => {
            return Err(BatchError::Storage(e));
        },
    };
    let out = batch_outcomes(&fetched, ids);
    proof {
        assert forall|i: int| 0 <= i < ids@.len() implies (((#[trigger] out@[i])@
            matches OutcomeView::FoundByUid { uid, .. } ==> uid == ids@[i]@) && (out@[i]@
            matches OutcomeView::FoundByPhone { phone_number, .. } ==> phone_number
            == ids@[i]@)) by {
            lemma_batch_outcome_shape(row_views(fetched@), ids@[i]@);
        }
    }
    Ok(out)
}

/// Store or replace the pair: `INSERT OR REPLACE` keyed on both uniqueness
/// constraints, so any row sharing the uid or the phone number is replaced.
/// Reports the number of rows changed.
pub fn insert_mapping(conn: &rusqlite::Connection, uid: &str, phone_number: &str) -> (r: Result<
    usize,
    StorageError,
>)
    requires
        uid@.len() > 0,
        phone_number@.len() > 0,
{
    let mut args: Vec<String> = Vec::new();
    args.push(uid.to_owned());
    args.push(phone_number.to_owned());
    sql_execute(
        conn,
        "INSERT OR REPLACE INTO user_mapping (uid, phone_number) VALUES (?1, ?2)",
        &args,
    )
}

/// Delete every row holding `id` in either column; reports the count
/// removed.
pub fn delete_mapping(conn: &rusqlite::Connection, id: &str) -> (r: Result<usize, StorageError>) {
    let mut args: Vec<String> = Vec::new();
    args.push(id.to_owned());
    sql_execute(conn, "DELETE FROM user_mapping WHERE uid = ?1 OR phone_number = ?1", &args)
}

/// The count verdict from the probe: the single cell the count query
/// returned; an error if the query failed or, against SQLite's behaviour for
/// a COUNT, yielded no row. Verified for every value the probe can take.
pub fn count_verdict(probe: Result<Option<i64>, StorageError>) -> (r: Result<i64, StorageError>)
    ensures
        probe matches Ok(row) ==> (row matches Some(n) ==> r == Ok::<i64, StorageError>(n)),
        probe matches Ok(row) ==> (row is None ==> r is Err),
        probe matches Err(e) ==> r == Err::<i64, StorageError>(e),
{
    match probe {
        Ok(Some(n)) => Ok(n),
        Ok(None) => Err(StorageError { message: "count query returned no row".to_owned() }),
        Err(e) => Err(e),
    }
}

/// The number of stored rows.
pub fn count_mappings(conn: &rusqlite::Connection) -> (r: Result<i64, StorageError>) {
    count_verdict(sql_query_int(conn, "SELECT COUNT(*) FROM user_mapping"))
}

/// Remove every row; reports the count removed.
pub fn clear_mappings(conn: &rusqlite::Connection) -> (r: Result<usize, StorageError>) {
    let no_args: Vec<String> = Vec::new();
    sql_execute(conn, "DELETE FROM user_mapping", &no_args)
}

/// The health verdict from the probe: the store is reachable exactly when
/// the trivial query came back with a row; a query failure is passed
/// through. Verified for every value the probe can take.
pub fn health_verdict(probe: Result<Option<i64>, StorageError>) -> (r: Result<(), StorageError>)
    ensures
        r is Ok <==> (probe matches Ok(row) && row is Some),
        probe matches Err(e) ==> r == Err::<(), StorageError>(e),
{
    match probe {
        Ok(Some(_)) => Ok(()),
        Ok(None) => Err(StorageError { message: "probe query returned no row".to_owned() }),
        Err(e) => Err(e),
    }
}

/// The reachability probe: a trivial query must succeed.
pub fn health_check(conn: &rusqlite::Connection) -> (r: Result<(), StorageError>) {
    health_verdict(sql_query_int(conn, "SELECT 1"))
}

/// Whether a schema probe hit: a returned row means the probed table or
/// index exists; a query failure is passed through. Verified for every value
/// the probe can take.
pub fn schema_probe_verdict(probe: Result<Option<String>, StorageError>) -> (r: Result<
    bool,
    StorageError,
>)
    ensures
        probe matches Ok(row) ==> r == Ok::<bool, StorageError>(row is Some),
        probe matches Err(e) ==> r == Err::<bool, StorageError>(e),
{
    match probe {
        Ok(row) => Ok(row.is_some()),
        Err(e) => Err(e),
    }
}

/// Whether the store behind this connection holds the mapping table.
pub fn has_mapping_table(conn: &rusqlite::Connection) -> (r: Result<bool, StorageError>) {
    let no_args: Vec<String> = Vec::new();
    schema_probe_verdict(
        sql_query_single(
            conn,
            "SELECT name FROM sqlite_master WHERE type = 'table' AND name = 'user_mapping'",
            &no_args,
        ),
    )
}

/// Whether both uniqueness indexes are present, from the two probes: the
/// uid probe's failure wins, then the phone probe's, else a hit in each.
/// Verified for every value the probes can take.
pub fn indices_verdict(
    uid_probe: Result<Option<String>, StorageError>,
    phone_probe: Result<Option<String>, StorageError>,
) -> (r: Result<bool, StorageError>)
    ensures
        uid_probe matches Err(e) ==> r == Err::<bool, StorageError>(e),
        uid_probe is Ok ==> (phone_probe matches Err(e) ==> r == Err::<bool, StorageError>(e)),
        uid_probe matches Ok(u) ==> (phone_probe matches Ok(p) ==> r == Ok::<bool, StorageError>(
            u is Some && p is Some,
        )),
{
    match uid_probe {
        Err(e) => Err(e),
        Ok(u) => match phone_probe {
            Err(e) => Err(e),
            Ok(p) => Ok(u.is_some() && p.is_some()),
        },
    }
}

/// The diagnostic index probe: whether both uniqueness indexes are present.
/// A missing index signals a pre-existing file from before the schema
/// manager; it degrades performance but is not fatal.
pub fn check_indices(conn: &rusqlite::Connection) -> (r: Result<bool, StorageError>) {
    let no_args: Vec<String> = Vec::new();
    let uid_probe = sql_query_single(
        conn,
        "SELECT name FROM sqlite_master WHERE type = 'index' AND name = 'idx_uid'",
        &no_args,
    );
    let phone_probe = sql_query_single(
        conn,
        "SELECT name FROM sqlite_master WHERE type = 'index' AND name = 'idx_phone'",
        &no_args,
    );
    indices_verdict(uid_probe, phone_probe)
}

} // verus!
