use vstd::prelude::*;

use crate::models::lemma_row_le_total;
use crate::models::lemma_row_le_transitive;
use crate::models::row_le;
use crate::models::sorted_rows;
use crate::models::views_of;
use crate::models::RecordModel;
use crate::models::VideoRecording;
use crate::text::str_eq;
use crate::text::str_lex_lt;

verus! {

// ---------------------------------------------------------------------------
// The storage engine, as the contracts see it
// ---------------------------------------------------------------------------

#[verifier::external_type_specification]
#[verifier::external_body]
pub struct ExConnection(rusqlite::Connection);

#[verifier::external_type_specification]
#[verifier::external_body]
pub struct ExSqlError(rusqlite::Error);

/// The rows of the `videos` table as this connection sees them, keyed by
/// `file_path`; for a row whose key is `p`, the model's `file_path` field is
/// `p` itself.  Timestamps are read as UTC unix seconds whatever their
/// stored representation.
pub uninterp spec fn catalog_rows(c: rusqlite::Connection) -> Map<Seq<char>, RecordModel>;

/// The columns of the `videos` table in order, each as its name, declared
/// type, NOT NULL flag and primary-key position (`0` for a column outside
/// the primary key) — the fields `PRAGMA table_info` reports.  Empty when
/// the table does not exist.  Constraints beyond these fields (checks,
/// triggers) are outside the model.
pub uninterp spec fn catalog_columns(c: rusqlite::Connection) -> Seq<
    (Seq<char>, Seq<char>, bool, int),
>;

/// Whether the connection is in autocommit mode, that is, no transaction
/// is open on it.  The distinction matters to the contracts' fault paths:
/// a statement that fails in autocommit mode leaves the table as it was,
/// but inside an open transaction the engine answers certain faults by
/// rolling the whole transaction back, so there a failed statement can
/// take earlier uncommitted changes with it.
pub uninterp spec fn catalog_autocommit(c: rusqlite::Connection) -> bool;

/// The rows of the `videos` table as of the connection's most recent
/// successful `BEGIN` — the state a rollback of the transaction opened
/// there restores.  Plain statements and commits never move it; only a new
/// `BEGIN` does.
pub uninterp spec fn catalog_tx_base(c: rusqlite::Connection) -> Map<Seq<char>, RecordModel>;

/// The column layout this library creates: a text path as the sole primary
/// key, text camera and date columns, integer unix-second timestamps, an
/// integer size and a boolean soft-delete flag, everything but the key
/// declared NOT NULL.
pub open spec fn current_columns() -> Seq<(Seq<char>, Seq<char>, bool, int)> {
    seq![
        ("file_path"@, "TEXT"@, false, 1int),
        ("camera_name"@, "TEXT"@, true, 0int),
        ("date"@, "TEXT"@, true, 0int),
        ("start_time"@, "INTEGER"@, true, 0int),
        ("end_time"@, "INTEGER"@, true, 0int),
        ("file_size"@, "INTEGER"@, true, 0int),
        ("deleted"@, "BOOLEAN"@, true, 0int),
    ]
}

/// An older layout stored the two timestamps in text form: it is recognized
/// by a `start_time` or `end_time` column declared `TEXT` or `DATETIME`
/// (the engine gives both text affinity, and both older layouts stored
/// datetime strings there).
pub open spec fn legacy_timestamp_columns(cols: Seq<(Seq<char>, Seq<char>, bool, int)>) -> bool {
    exists|i: int|
        0 <= i < cols.len() && ((#[trigger] cols[i]).0 == "start_time"@ || cols[i].0
            == "end_time"@) && (cols[i].1 == "TEXT"@ || cols[i].1 == "DATETIME"@)
}

/// `m` after an insert-if-absent of `rec`, keyed by its path.
pub open spec fn insert_row(m: Map<Seq<char>, RecordModel>, rec: RecordModel) -> Map<
    Seq<char>,
    RecordModel,
> {
    if m.contains_key(rec.file_path) {
        m
    } else {
        m.insert(rec.file_path, rec)
    }
}

/// `m` with the row at `p`, if any, flagged deleted.
pub open spec fn mark_row_deleted(m: Map<Seq<char>, RecordModel>, p: Seq<char>) -> Map<
    Seq<char>,
    RecordModel,
> {
    if m.contains_key(p) {
        m.insert(p, RecordModel { deleted: true, ..m[p] })
    } else {
        m
    }
}

// ---------------------------------------------------------------------------
// Errors
// ---------------------------------------------------------------------------

/// A fault of the storage engine, fatal to the operation that met it.
#[derive(Debug)]
pub enum CatalogError {
    /// The storage engine refused a statement; the text is its message.
    /// The operation was not applied: a batch was rolled back, a single
    /// statement never took effect.
    Storage(String),
    /// The storage engine refused a statement and the rollback that
    /// followed failed as well, so the catalog may hold part of the
    /// aborted batch; the text is the rollback's message.  A later scan or
    /// audit pass reconciles such a state.
    Unsettled(String),
}

/// Relies on the `Display` implementation of `rusqlite::Error` for a
/// human-readable message.
#[verifier::external_body]
pub(crate) fn storage_error_text(e: &rusqlite::Error) -> String {
    format!("{}", e)
}

// ---------------------------------------------------------------------------
// Trusted calls into the storage engine
// ---------------------------------------------------------------------------

/// Relies on `rusqlite::Connection::prepare` and `Statement::query_map`
/// running `PRAGMA table_info(videos)`: one row per column of the table in
/// column order, with the column name in field 1, its declared type in
/// field 2, the NOT NULL flag in field 3 and the primary-key position in
/// field 5; no rows when the table does not exist.
#[verifier::external_body]
fn read_table_columns(conn: &rusqlite::Connection) -> (r: Result<
    Vec<(String, String, bool, i64)>,
    rusqlite::Error,
>)
    ensures
        r matches Ok(cols) ==> cols@.map_values(
            |p: (String, String, bool, i64)| (p.0@, p.1@, p.2, p.3 as int),
        ) == catalog_columns(*conn),
{
    let mut stmt = conn.prepare("PRAGMA table_info(videos)")?;
    let rows = stmt.query_map(
        [],
        |row| Ok((row.get(1)?, row.get(2)?, row.get(3)?, row.get(5)?)),
    )?;
    rows.collect()
}

/// Relies on `rusqlite::Connection::execute` running `CREATE TABLE IF NOT
/// EXISTS`: with no `videos` table it creates an empty one with the current
/// columns; otherwise it does nothing.  A failed statement changes nothing
/// in autocommit mode only — inside an open transaction the engine may
/// answer a fault by rolling everything back, so nothing is claimed there.
#[verifier::external_body]
fn create_table_if_absent(conn: &mut rusqlite::Connection) -> (r: Result<(), rusqlite::Error>)
    ensures
        r matches Ok(_) ==> catalog_columns(*final(conn)) == (if catalog_columns(
            *old(conn),
        ).len() == 0 {
            current_columns()
        } else {
            catalog_columns(*old(conn))
        }),
        r matches Ok(_) ==> catalog_rows(*final(conn)) == (if catalog_columns(*old(conn)).len()
            == 0 {
            Map::<Seq<char>, RecordModel>::empty()
        } else {
            catalog_rows(*old(conn))
        }),
        r is Err && catalog_autocommit(*old(conn)) ==> catalog_columns(*final(conn))
            == catalog_columns(*old(conn)) && catalog_rows(*final(conn)) == catalog_rows(
            *old(conn),
        ),
{
    conn.execute(
        "CREATE TABLE IF NOT EXISTS videos (file_path TEXT PRIMARY KEY, camera_name TEXT NOT NULL, date TEXT NOT NULL, start_time INTEGER NOT NULL, end_time INTEGER NOT NULL, file_size INTEGER NOT NULL, deleted BOOLEAN NOT NULL DEFAULT 0)",
        [],
    )?;
    Ok(())
}

/// Relies on `rusqlite::Connection::unchecked_transaction` and
/// `Transaction::commit`, with `ALTER TABLE ... RENAME`, `CREATE TABLE`,
/// `INSERT ... SELECT` converting the text timestamps with
/// `CAST(strftime('%s', ...) AS INTEGER)`, and `DROP TABLE`: in one
/// transaction the table is rebuilt under the current columns with every row
/// carried over and its timestamp values preserved as unix seconds.  On any
/// failure the dropped transaction rolls back and nothing has changed.
#[verifier::external_body]
fn migrate_legacy_table(conn: &mut rusqlite::Connection) -> (r: Result<(), rusqlite::Error>)
    ensures
        r matches Ok(_) ==> catalog_columns(*final(conn)) == current_columns() && catalog_rows(
            *final(conn),
        ) == catalog_rows(*old(conn)),
        r is Err ==> catalog_columns(*final(conn)) == catalog_columns(*old(conn)) && catalog_rows(
            *final(conn),
        ) == catalog_rows(*old(conn)),
{
    let tx = conn.unchecked_transaction()?;
    tx.execute("ALTER TABLE videos RENAME TO videos_legacy", [])?;
    tx.execute(
        "CREATE TABLE videos (file_path TEXT PRIMARY KEY, camera_name TEXT NOT NULL, date TEXT NOT NULL, start_time INTEGER NOT NULL, end_time INTEGER NOT NULL, file_size INTEGER NOT NULL, deleted BOOLEAN NOT NULL DEFAULT 0)",
        [],
    )?;
    tx.execute(
        "INSERT INTO videos (file_path, camera_name, date, start_time, end_time, file_size, deleted) SELECT file_path, camera_name, date, CAST(strftime('%s', start_time) AS INTEGER), CAST(strftime('%s', end_time) AS INTEGER), file_size, deleted FROM videos_legacy",
        [],
    )?;
    tx.execute("DROP TABLE videos_legacy", [])?;
    tx.commit()
}

/// Relies on `rusqlite::Connection::execute` running `INSERT OR IGNORE`: a
/// row whose key is already present leaves the table unchanged and reports
/// zero changed rows, and a new key adds exactly the given row and reports
/// one.  A failed statement changes nothing in autocommit mode only —
/// inside an open transaction the engine may answer a fault by rolling
/// everything back, so nothing is claimed there.  A plain statement never
/// runs `BEGIN`, so the transaction base stays where it was.
#[verifier::external_body]
fn exec_insert_record(conn: &mut rusqlite::Connection, record: &VideoRecording) -> (r: Result<
    usize,
    rusqlite::Error,
>)
    requires
        catalog_columns(*old(conn)) == current_columns(),
        record.file_size <= i64::MAX as u64,
    ensures
        catalog_tx_base(*final(conn)) == catalog_tx_base(*old(conn)),
        r matches Ok(n) ==> catalog_columns(*final(conn)) == catalog_columns(*old(conn))
            && catalog_rows(*final(conn)) == insert_row(catalog_rows(*old(conn)), record@) && n
            == (if catalog_rows(*old(conn)).contains_key(record.file_path@) {
            0int
        } else {
            1int
        }),
        r is Err && catalog_autocommit(*old(conn)) ==> catalog_columns(*final(conn))
            == catalog_columns(*old(conn)) && catalog_rows(*final(conn)) == catalog_rows(
            *old(conn),
        ),
{
    conn.execute(
        "INSERT OR IGNORE INTO videos (file_path, camera_name, date, start_time, end_time, file_size, deleted) VALUES (?1, ?2, ?3, ?4, ?5, ?6, ?7)",
        (
            &record.file_path,
            &record.camera_name,
            &record.date,
            &record.start_time,
            &record.end_time,
            &(record.file_size as i64),
            &record.deleted,
        ),
    )
}

/// Relies on `rusqlite::Connection::prepare` and `Statement::query_map`
/// running `SELECT` over all of `videos`: every row of the table is handed
/// back exactly once, in unspecified order.
#[verifier::external_body]
fn exec_select_all(conn: &mut rusqlite::Connection) -> (r: Result<
    Vec<VideoRecording>,
    rusqlite::Error,
>)
    requires
        catalog_columns(*old(conn)) == current_columns(),
    ensures
        catalog_columns(*final(conn)) == catalog_columns(*old(conn)),
        catalog_rows(*final(conn)) == catalog_rows(*old(conn)),
        r matches Ok(v) ==> {
            &&& forall|i: int|
                0 <= i < v@.len() ==> catalog_rows(*old(conn)).contains_key(
                    #[trigger] v@[i]@.file_path,
                ) && catalog_rows(*old(conn))[v@[i]@.file_path] == v@[i]@
            &&& forall|i: int, j: int|
                0 <= i < j < v@.len() ==> v@[i]@.file_path != v@[j]@.file_path
            &&& forall|k: Seq<char>|
                catalog_rows(*old(conn)).dom().contains(k) ==> exists|i: int|
                    0 <= i < v@.len() && #[trigger] v@[i]@.file_path == k
        },
{
    let sql = "SELECT file_path, camera_name, date, start_time, end_time, file_size, deleted FROM videos";
    let mut stmt = conn.prepare(sql)?;
    let rows = stmt.query_map(
        [],
        |row| Ok(VideoRecording {
            file_path: row.get(0)?,
            camera_name: row.get(1)?,
            date: row.get(2)?,
            start_time: row.get(3)?,
            end_time: row.get(4)?,
            file_size: row.get::<_, i64>(5)? as u64,
            deleted: row.get(6)?,
        }),
    )?;
    rows.collect()
}

/// Relies on `rusqlite::Connection::execute` running `UPDATE ... SET deleted
/// = 1 WHERE file_path = ?`: a present key has exactly its own row flagged
/// and one changed row is reported, and an absent key changes nothing and
/// reports zero.  A failed statement changes nothing in autocommit mode
/// only — inside an open transaction the engine may answer a fault by
/// rolling everything back, so nothing is claimed there.  A plain
/// statement never runs `BEGIN`, so the transaction base stays where it
/// was.
#[verifier::external_body]
fn exec_mark_deleted(conn: &mut rusqlite::Connection, file_path: &str) -> (r: Result<
    usize,
    rusqlite::Error,
>)
    requires
        catalog_columns(*old(conn)) == current_columns(),
    ensures
        catalog_tx_base(*final(conn)) == catalog_tx_base(*old(conn)),
        r matches Ok(n) ==> catalog_columns(*final(conn)) == catalog_columns(*old(conn))
            && catalog_rows(*final(conn)) == mark_row_deleted(
            catalog_rows(*old(conn)),
            file_path@,
        ) && n == (if catalog_rows(*old(conn)).contains_key(file_path@) {
            1int
        } else {
            0int
        }),
        r is Err && catalog_autocommit(*old(conn)) ==> catalog_columns(*final(conn))
            == catalog_columns(*old(conn)) && catalog_rows(*final(conn)) == catalog_rows(
            *old(conn),
        ),
{
    conn.execute("UPDATE videos SET deleted = 1 WHERE file_path = ?1", [file_path])
}

/// Relies on `rusqlite::Connection::execute_batch` running `BEGIN`: opening
/// a transaction reads and changes no rows, and on success the rows at this
/// `BEGIN` become what a rollback of the transaction restores.
#[verifier::external_body]
pub(crate) fn tx_begin(conn: &mut rusqlite::Connection) -> (r: Result<(), rusqlite::Error>)
    ensures
        catalog_columns(*final(conn)) == catalog_columns(*old(conn)),
        catalog_rows(*final(conn)) == catalog_rows(*old(conn)),
        r matches Ok(_) ==> catalog_tx_base(*final(conn)) == catalog_rows(*old(conn)),
{
    conn.execute_batch("BEGIN")
}

/// Relies on `rusqlite::Connection::execute_batch` running `COMMIT`: on
/// success the open transaction's statements become durable and the rows
/// this connection sees are unchanged.  A failed commit may leave the
/// transaction rolled back by the engine, so nothing is claimed of the
/// rows then.
#[verifier::external_body]
pub(crate) fn tx_commit(conn: &mut rusqlite::Connection) -> (r: Result<(), rusqlite::Error>)
    ensures
        catalog_tx_base(*final(conn)) == catalog_tx_base(*old(conn)),
        r matches Ok(_) ==> catalog_columns(*final(conn)) == catalog_columns(*old(conn))
            && catalog_rows(*final(conn)) == catalog_rows(*old(conn)),
{
    conn.execute_batch("COMMIT")
}

/// Relies on `rusqlite::Connection::execute_batch` running `ROLLBACK`: on
/// success the open transaction's statements are undone and the rows are
/// back to the state at its `BEGIN`.  `ROLLBACK` succeeds only with a
/// transaction open, so the failure path — no transaction, or statements
/// still pending — leaves nothing to claim.
#[verifier::external_body]
pub(crate) fn tx_rollback(conn: &mut rusqlite::Connection) -> (r: Result<(), rusqlite::Error>)
    ensures
        r matches Ok(_) ==> catalog_rows(*final(conn)) == catalog_tx_base(*old(conn)),
{
    conn.execute_batch("ROLLBACK")
}

// ---------------------------------------------------------------------------
// Schema management
// ---------------------------------------------------------------------------

/// True when the column list read from the table shows the legacy layout
/// with text-form timestamps.
pub fn is_legacy_schema(cols: &Vec<(String, String, bool, i64)>) -> (r: bool)
    ensures
        r == legacy_timestamp_columns(
            cols@.map_values(|p: (String, String, bool, i64)| (p.0@, p.1@, p.2, p.3 as int)),
        ),
{
    let ghost mapped = cols@.map_values(
        |p: (String, String, bool, i64)| (p.0@, p.1@, p.2, p.3 as int),
    );
    let mut i: usize = 0;
    while i < cols.len()
        invariant
            0 <= i <= cols.len(),
            mapped == cols@.map_values(
                |p: (String, String, bool, i64)| (p.0@, p.1@, p.2, p.3 as int),
            ),
            forall|k: int|
                0 <= k < i ==> !(((#[trigger] mapped[k]).0 == "start_time"@ || mapped[k].0
                    == "end_time"@) && (mapped[k].1 == "TEXT"@ || mapped[k].1 == "DATETIME"@)),
        decreases cols.len() - i,
    {
        let named = str_eq(cols[i].0.as_str(), "start_time") || str_eq(
            cols[i].0.as_str(),
            "end_time",
        );
        if named && (str_eq(cols[i].1.as_str(), "TEXT") || str_eq(cols[i].1.as_str(), "DATETIME"))
        {
            proof {
                assert(0 <= i < mapped.len() && ((mapped[i as int]).0 == "start_time"@ || mapped[
                    i as int
                ].0 == "end_time"@) && (mapped[i as int].1 == "TEXT"@ || mapped[i as int].1
                    == "DATETIME"@));
            }
            return true;
        }
        i += 1;
    }
    false
}

/// Opens the catalog: creates the `videos` table when it is absent, and
/// migrates a table found under the legacy text-timestamp layout to the
/// current one — rebuilt in a single transaction, every row carried over
/// with its timestamp values intact and the legacy table dropped.  A table
/// already under a current (non-legacy) layout is left untouched.
pub fn init_db(conn: &mut rusqlite::Connection) -> (r: Result<(), CatalogError>)
    ensures
        r matches Ok(_) ==> {
            let before = catalog_columns(*old(conn));
            &&& before.len() == 0 ==> catalog_columns(*final(conn)) == current_columns()
                && catalog_rows(*final(conn)) == Map::<Seq<char>, RecordModel>::empty()
            &&& legacy_timestamp_columns(before) ==> catalog_columns(*final(conn))
                == current_columns() && catalog_rows(*final(conn)) == catalog_rows(*old(conn))
            &&& (before.len() != 0 && !legacy_timestamp_columns(before)) ==> catalog_columns(
                *final(conn),
            ) == before && catalog_rows(*final(conn)) == catalog_rows(*old(conn))
        },
        r is Err && catalog_autocommit(*old(conn)) ==> catalog_columns(*final(conn))
            == catalog_columns(*old(conn)) && catalog_rows(*final(conn)) == catalog_rows(
            *old(conn),
        ),
{
    let cols = match read_table_columns(conn) {
        Ok(c) => c,
        Err(e) => { return Err(CatalogError::Storage(storage_error_text(&e))) },
    };
    if is_legacy_schema(&cols) {
        match migrate_legacy_table(conn) {
            Ok(_) => Ok(()),
            Err(e) => Err(CatalogError::Storage(storage_error_text(&e))),
        }
    } else {
        match create_table_if_absent(conn) {
            Ok(_) => Ok(()),
            Err(e) => Err(CatalogError::Storage(storage_error_text(&e))),
        }
    }
}

/// True when the column at `i` matches the expected name, declared type,
/// NOT NULL flag and primary-key position.
fn check_col(
    cols: &Vec<(String, String, bool, i64)>,
    i: usize,
    name: &str,
    ty: &str,
    notnull: bool,
    pk: i64,
) -> (r: bool)
    requires
        i < cols@.len(),
    ensures
        r == (cols@.map_values(
            |p: (String, String, bool, i64)| (p.0@, p.1@, p.2, p.3 as int),
        )[i as int] == (name@, ty@, notnull, pk as int)),
{
    let c = &cols[i];
    str_eq(c.0.as_str(), name) && str_eq(c.1.as_str(), ty) && c.2 == notnull && c.3 == pk
}

/// Reads the table's columns and reports whether they are exactly the
/// layout this library maintains — names, declared types, NOT NULL flags
/// and the primary key on `file_path`.  A caller that inherits a database
/// of unknown lineage can test this before using the catalog API, whose
/// contracts assume the current layout; `init_db` establishes it for an
/// absent, legacy or already-current table but passes any other layout
/// through untouched.
pub fn schema_is_current(conn: &rusqlite::Connection) -> (r: Result<bool, CatalogError>)
    ensures
        r matches Ok(b) ==> b == (catalog_columns(*conn) == current_columns()),
{
    let cols = match read_table_columns(conn) {
        Ok(c) => c,
        Err(e) => { return Err(CatalogError::Storage(storage_error_text(&e))) },
    };
    let ghost mapped = cols@.map_values(
        |p: (String, String, bool, i64)| (p.0@, p.1@, p.2, p.3 as int),
    );
    if cols.len() != 7 {
        proof {
            assert(mapped.len() != 7 && current_columns().len() == 7);
        }
        return Ok(false);
    }
    if !check_col(&cols, 0, "file_path", "TEXT", false, 1) {
        proof {
            assert(mapped != current_columns()) by {
                if mapped == current_columns() {
                    assert(mapped[0] == current_columns()[0]);
                }
            }
        }
        return Ok(false);
    }
    if !check_col(&cols, 1, "camera_name", "TEXT", true, 0) {
        proof {
            assert(mapped != current_columns()) by {
                if mapped == current_columns() {
                    assert(mapped[1] == current_columns()[1]);
                }
            }
        }
        return Ok(false);
    }
    if !check_col(&cols, 2, "date", "TEXT", true, 0) {
        proof {
            assert(mapped != current_columns()) by {
                if mapped == current_columns() {
                    assert(mapped[2] == current_columns()[2]);
                }
            }
        }
        return Ok(false);
    }
    if !check_col(&cols, 3, "start_time", "INTEGER", true, 0) {
        proof {
            assert(mapped != current_columns()) by {
                if mapped == current_columns() {
                    assert(mapped[3] == current_columns()[3]);
                }
            }
        }
        return Ok(false);
    }
    if !check_col(&cols, 4, "end_time", "INTEGER", true, 0) {
        proof {
            assert(mapped != current_columns()) by {
                if mapped == current_columns() {
                    assert(mapped[4] == current_columns()[4]);
                }
            }
        }
        return Ok(false);
    }
    if !check_col(&cols, 5, "file_size", "INTEGER", true, 0) {
        proof {
            assert(mapped != current_columns()) by {
                if mapped == current_columns() {
                    assert(mapped[5] == current_columns()[5]);
                }
            }
        }
        return Ok(false);
    }
    if !check_col(&cols, 6, "deleted", "BOOLEAN", true, 0) {
        proof {
            assert(mapped != current_columns()) by {
                if mapped == current_columns() {
                    assert(mapped[6] == current_columns()[6]);
                }
            }
        }
        return Ok(false);
    }
    proof {
        assert(mapped =~= current_columns());
    }
    Ok(true)
}

// ---------------------------------------------------------------------------
// Inserts and soft deletes
// ---------------------------------------------------------------------------

/// Inserts one recording, keyed by `file_path`, ignoring a path the catalog
/// already holds; the result counts the rows actually added, so it is `1`
/// for a new path and `0` for a seen one, and a re-insert never updates the
/// stored row.  A size past the storage engine's integer range is refused
/// before any statement runs.
pub fn insert_record(conn: &mut rusqlite::Connection, record: &VideoRecording) -> (r: Result<
    usize,
    CatalogError,
>)
    requires
        catalog_columns(*old(conn)) == current_columns(),
    ensures
        catalog_tx_base(*final(conn)) == catalog_tx_base(*old(conn)),
        r matches Ok(n) ==> catalog_columns(*final(conn)) == catalog_columns(*old(conn))
            && catalog_rows(*final(conn)) == insert_row(catalog_rows(*old(conn)), record@) && n
            == (if catalog_rows(*old(conn)).contains_key(record.file_path@) {
            0int
        } else {
            1int
        }),
        record.file_size > i64::MAX as u64 ==> r is Err,
        r is Err && catalog_autocommit(*old(conn)) ==> catalog_columns(*final(conn))
            == catalog_columns(*old(conn)) && catalog_rows(*final(conn)) == catalog_rows(
            *old(conn),
        ),
{
    if record.file_size > i64::MAX as u64 {
        return Err(CatalogError::Storage("file size exceeds the catalog's integer range".to_owned()));
    }
    match exec_insert_record(conn, record) {
        Ok(n) => Ok(n),
        Err(e) => Err(CatalogError::Storage(storage_error_text(&e))),
    }
}

// ---------------------------------------------------------------------------
// The active listing
// ---------------------------------------------------------------------------

/// The subsequence of `s` whose rows are not flagged deleted, in order.
pub open spec fn active_rows(s: Seq<RecordModel>) -> Seq<RecordModel>
    decreases s.len(),
{
    if s.len() == 0 {
        Seq::empty()
    } else if !s.last().deleted {
        active_rows(s.drop_last()).push(s.last())
    } else {
        active_rows(s.drop_last())
    }
}

/// `s` lists exactly the rows of `m` that are not flagged deleted, each
/// under its own key, without repetition, in ascending catalog order.
pub open spec fn active_listing(m: Map<Seq<char>, RecordModel>, s: Seq<RecordModel>) -> bool {
    &&& forall|i: int|
        0 <= i < s.len() ==> m.contains_key((#[trigger] s[i]).file_path) && m[s[i].file_path]
            == s[i] && !s[i].deleted
    &&& forall|i: int, j: int|
        0 <= i < j < s.len() ==> (#[trigger] s[i]).file_path != (#[trigger] s[j]).file_path
    &&& forall|k: Seq<char>|
        #[trigger] m.dom().contains(k) && !m[k].deleted ==> exists|i: int|
            0 <= i < s.len() && (#[trigger] s[i]).file_path == k
    &&& sorted_rows(s)
}

/// Every active row is one of the rows it was drawn from, and none is
/// flagged deleted.
proof fn lemma_active_rows_sub(s: Seq<RecordModel>)
    ensures
        forall|t: int| 0 <= t < active_rows(s).len() ==> !(#[trigger] active_rows(s)[t]).deleted,
        forall|t: int|
            0 <= t < active_rows(s).len() ==> exists|j: int|
                0 <= j < s.len() && s[j] == (#[trigger] active_rows(s)[t]),
    decreases s.len(),
{
    if s.len() > 0 {
        lemma_active_rows_sub(s.drop_last());
        assert forall|t: int| 0 <= t < active_rows(s).len() implies exists|j: int|
            0 <= j < s.len() && s[j] == (#[trigger] active_rows(s)[t]) by {
            if !s.last().deleted && t == active_rows(s).len() - 1 {
                assert(s[s.len() - 1] == active_rows(s)[t]);
            } else {
                assert(active_rows(s)[t] == active_rows(s.drop_last())[t]);
                let j = choose|j: int|
                    0 <= j < s.drop_last().len() && s.drop_last()[j] == active_rows(
                        s.drop_last(),
                    )[t];
                assert(s[j] == active_rows(s)[t]);
            }
        }
    }
}

/// Every row not flagged deleted appears among the active rows.
proof fn lemma_active_rows_complete(s: Seq<RecordModel>)
    ensures
        forall|j: int|
            0 <= j < s.len() && !(#[trigger] s[j]).deleted ==> exists|t: int|
                0 <= t < active_rows(s).len() && active_rows(s)[t] == s[j],
    decreases s.len(),
{
    if s.len() > 0 {
        lemma_active_rows_complete(s.drop_last());
        assert forall|j: int| 0 <= j < s.len() && !(#[trigger] s[j]).deleted implies exists|t: int|
            0 <= t < active_rows(s).len() && active_rows(s)[t] == s[j] by {
            if j == s.len() - 1 {
                assert(active_rows(s)[active_rows(s).len() - 1] == s[j]);
            } else {
                assert(s.drop_last()[j] == s[j]);
                let t = choose|t: int|
                    0 <= t < active_rows(s.drop_last()).len() && active_rows(s.drop_last())[t]
                        == s.drop_last()[j];
                assert(active_rows(s)[t] == s[j]);
            }
        }
    }
}

/// Filtering keeps paths pairwise distinct.
proof fn lemma_active_rows_distinct(s: Seq<RecordModel>)
    requires
        forall|i: int, j: int|
            0 <= i < j < s.len() ==> (#[trigger] s[i]).file_path != (#[trigger] s[j]).file_path,
    ensures
        forall|t: int, u: int|
            0 <= t < u < active_rows(s).len() ==> (#[trigger] active_rows(s)[t]).file_path != (
            #[trigger] active_rows(s)[u]).file_path,
    decreases s.len(),
{
    if s.len() > 0 {
        assert forall|i: int, j: int| 0 <= i < j < s.drop_last().len() implies (#[trigger] s.drop_last()[i]).file_path
            != (#[trigger] s.drop_last()[j]).file_path by {
            assert(s.drop_last()[i] == s[i] && s.drop_last()[j] == s[j]);
        }
        lemma_active_rows_distinct(s.drop_last());
        lemma_active_rows_sub(s.drop_last());
        assert forall|t: int, u: int| 0 <= t < u < active_rows(s).len() implies (
        #[trigger] active_rows(s)[t]).file_path != (#[trigger] active_rows(s)[u]).file_path by {
            if !s.last().deleted && u == active_rows(s).len() - 1 {
                assert(active_rows(s)[t] == active_rows(s.drop_last())[t]);
                let j = choose|j: int|
                    0 <= j < s.drop_last().len() && s.drop_last()[j] == active_rows(
                        s.drop_last(),
                    )[t];
                assert(s[j].file_path != s[s.len() - 1].file_path);
            } else {
                assert(active_rows(s)[t] == active_rows(s.drop_last())[t]);
                assert(active_rows(s)[u] == active_rows(s.drop_last())[u]);
            }
        }
    }
}

/// True exactly when `a` comes no later than `b` in catalog order.
fn rec_le(a: &VideoRecording, b: &VideoRecording) -> (r: bool)
    ensures
        r == row_le(a@, b@),
{
    if str_lex_lt(a.date.as_str(), b.date.as_str()) {
        true
    } else if str_eq(a.date.as_str(), b.date.as_str()) {
        a.start_time <= b.start_time
    } else {
        false
    }
}

/// The views of a sequence distribute over insertion.
proof fn lemma_views_insert(s: Seq<VideoRecording>, pos: int, x: VideoRecording)
    requires
        0 <= pos <= s.len(),
    ensures
        views_of(s.insert(pos, x)) =~= views_of(s).insert(pos, x@),
{
    s.insert_ensures(pos, x);
    views_of(s).insert_ensures(pos, x@);
    assert forall|i: int| 0 <= i < s.len() + 1 implies views_of(s.insert(pos, x))[i] == views_of(
        s,
    ).insert(pos, x@)[i] by {
        if i < pos {
            assert(s.insert(pos, x)[i] == s[i]);
        } else if i > pos {
            assert(s.insert(pos, x)[i] == s[i - 1]);
            assert(views_of(s).insert(pos, x@)[i] == views_of(s)[i - 1]);
        }
    }
}

/// Inserting at the boundary found by the insertion scan keeps the rows
/// sorted.
proof fn lemma_sorted_insert(s: Seq<RecordModel>, pos: int, x: RecordModel)
    requires
        0 <= pos <= s.len(),
        sorted_rows(s),
        forall|k: int| 0 <= k < pos ==> row_le(#[trigger] s[k], x),
        pos < s.len() ==> !row_le(s[pos], x),
    ensures
        sorted_rows(s.insert(pos, x)),
{
    s.insert_ensures(pos, x);
    let t = s.insert(pos, x);
    if pos < s.len() {
        lemma_row_le_total(s[pos], x);
    }
    assert forall|i: int, j: int| 0 <= i < j < t.len() implies row_le(
        #[trigger] t[i],
        #[trigger] t[j],
    ) by {
        if i == pos {
            if j - 1 > pos {
                lemma_row_le_transitive(x, s[pos], s[j - 1]);
            }
        } else if i < pos && j > pos {
            if j - 1 > i {
                assert(row_le(s[i], s[j - 1]));
            }
        }
    }
}

/// Sorts recordings into ascending catalog order; the result holds the same
/// rows, counted with multiplicity.
fn sort_records(input: &Vec<VideoRecording>) -> (out: Vec<VideoRecording>)
    ensures
        views_of(out@).to_multiset() == views_of(input@).to_multiset(),
        sorted_rows(views_of(out@)),
{
    broadcast use vstd::seq_lib::group_to_multiset_ensures;

    let mut out: Vec<VideoRecording> = Vec::new();
    let mut i: usize = 0;
    proof {
        assert(views_of(input@.take(0)) =~= Seq::<RecordModel>::empty());
        assert(views_of(out@) =~= Seq::<RecordModel>::empty());
    }
    while i < input.len()
        invariant
            0 <= i <= input.len(),
            sorted_rows(views_of(out@)),
            views_of(out@).to_multiset() == views_of(input@.take(i as int)).to_multiset(),
        decreases input.len() - i,
    {
        broadcast use vstd::seq_lib::group_to_multiset_ensures;

        let rec = input[i].clone();
        let mut pos: usize = 0;
        while pos < out.len() && rec_le(&out[pos], &rec)
            invariant
                0 <= pos <= out.len(),
                forall|k: int| 0 <= k < pos ==> row_le(#[trigger] views_of(out@)[k], rec@),
            decreases out.len() - pos,
        {
            pos += 1;
        }
        proof {
            let before = views_of(out@);
            lemma_sorted_insert(before, pos as int, rec@);
            lemma_views_insert(out@, pos as int, rec);
            vstd::seq_lib::to_multiset_insert(before, pos as int, rec@);
            assert(views_of(input@.take(i as int + 1)) =~= views_of(input@.take(i as int)).push(
                input@[i as int]@,
            ));
        }
        out.insert(pos, rec);
        i += 1;
    }
    proof {
        assert(input@.take(input@.len() as int) =~= input@);
    }
    out
}

/// Keeps the recordings not flagged deleted, in their given order.
fn filter_active(input: &Vec<VideoRecording>) -> (out: Vec<VideoRecording>)
    ensures
        views_of(out@) == active_rows(views_of(input@)),
{
    let mut out: Vec<VideoRecording> = Vec::new();
    let mut i: usize = 0;
    proof {
        assert(views_of(out@) =~= active_rows(views_of(input@.take(0))));
    }
    while i < input.len()
        invariant
            0 <= i <= input.len(),
            views_of(out@) == active_rows(views_of(input@.take(i as int))),
        decreases input.len() - i,
    {
        let ghost prev = views_of(out@);
        if !input[i].deleted {
            let rec = input[i].clone();
            out.push(rec);
        }
        proof {
            let stepped = views_of(input@.take(i as int + 1));
            assert(stepped.drop_last() =~= views_of(input@.take(i as int)));
            assert(stepped.last() == input@[i as int]@);
            if !input@[i as int]@.deleted {
                assert(views_of(out@) =~= prev.push(input@[i as int]@));
            }
            assert(views_of(out@) == active_rows(stepped));
        }
        i += 1;
    }
    proof {
        assert(input@.take(input@.len() as int) =~= input@);
    }
    out
}

/// Assembles the listing facts: a sorted permutation of the active rows of
/// a faithful, duplicate-free row set is an active listing.
proof fn lemma_listing_from_sorted(
    m: Map<Seq<char>, RecordModel>,
    raw: Seq<RecordModel>,
    srt: Seq<RecordModel>,
)
    requires
        forall|i: int|
            0 <= i < raw.len() ==> m.contains_key((#[trigger] raw[i]).file_path)
                && m[raw[i].file_path] == raw[i],
        forall|i: int, j: int|
            0 <= i < j < raw.len() ==> (#[trigger] raw[i]).file_path != (
            #[trigger] raw[j]).file_path,
        forall|k: Seq<char>|
            #[trigger] m.dom().contains(k) ==> exists|i: int|
                0 <= i < raw.len() && (#[trigger] raw[i]).file_path == k,
        srt.to_multiset() == active_rows(raw).to_multiset(),
        sorted_rows(srt),
    ensures
        active_listing(m, srt),
{
    broadcast use vstd::seq_lib::group_to_multiset_ensures;

    let act = active_rows(raw);
    lemma_active_rows_sub(raw);
    lemma_active_rows_complete(raw);
    lemma_active_rows_distinct(raw);
    // every sorted row is one of the active rows, hence keyed in m
    assert forall|i: int| 0 <= i < srt.len() implies m.contains_key(
        (#[trigger] srt[i]).file_path,
    ) && m[srt[i].file_path] == srt[i] && !srt[i].deleted by {
        assert(srt.contains(srt[i]));
        assert(srt.to_multiset().count(srt[i]) > 0);
        assert(act.contains(srt[i]));
        let t = choose|t: int| 0 <= t < act.len() && act[t] == srt[i];
        let j = choose|j: int| 0 <= j < raw.len() && raw[j] == act[t];
        assert(m.contains_key(raw[j].file_path) && m[raw[j].file_path] == raw[j]);
    }
    // no path twice: the active rows are pairwise distinct, so counts are one
    assert forall|i: int, j: int| 0 <= i < j < srt.len() implies (#[trigger] srt[i]).file_path != (
    #[trigger] srt[j]).file_path by {
        if srt[i].file_path == srt[j].file_path {
            assert(srt[i] == srt[j]);
            assert forall|t: int, u: int|
                0 <= t < act.len() && 0 <= u < act.len() && t != u implies act[t] != act[u] by {
                if t < u {
                    assert(act[t].file_path != act[u].file_path);
                } else {
                    assert(act[u].file_path != act[t].file_path);
                }
            }
            act.lemma_multiset_has_no_duplicates();
            srt.lemma_multiset_has_no_duplicates_conv();
            assert(srt[i] != srt[j]);
        }
    }
    // every active key of m appears
    assert forall|k: Seq<char>| #[trigger] m.dom().contains(k) && !m[k].deleted implies exists|
        i: int,
    | 0 <= i < srt.len() && (#[trigger] srt[i]).file_path == k by {
        let j = choose|j: int| 0 <= j < raw.len() && (#[trigger] raw[j]).file_path == k;
        assert(raw[j] == m[k] && !raw[j].deleted);
        let t = choose|t: int| 0 <= t < act.len() && act[t] == raw[j];
        assert(act.contains(raw[j]));
        assert(act.to_multiset().count(raw[j]) > 0);
        assert(srt.contains(raw[j]));
        let i = choose|i: int| 0 <= i < srt.len() && srt[i] == raw[j];
        assert(srt[i].file_path == k);
    }
}

/// Retrieves the catalog's active recordings — those not flagged deleted —
/// sorted ascending by `(date, start_time)`, each appearing exactly once
/// under its own path.
pub fn get_all_non_deleted_recordings(conn: &mut rusqlite::Connection) -> (r: Result<
    Vec<VideoRecording>,
    CatalogError,
>)
    requires
        catalog_columns(*old(conn)) == current_columns(),
    ensures
        catalog_columns(*final(conn)) == catalog_columns(*old(conn)),
        catalog_rows(*final(conn)) == catalog_rows(*old(conn)),
        r matches Ok(v) ==> active_listing(catalog_rows(*old(conn)), views_of(v@)),
{
    let raw = match exec_select_all(conn) {
        Ok(v) => v,
        Err(e) => { return Err(CatalogError::Storage(storage_error_text(&e))) },
    };
    let active = filter_active(&raw);
    let sorted = sort_records(&active);
    proof {
        let m = catalog_rows(*old(conn));
        let rv = views_of(raw@);
        assert forall|k: Seq<char>| #[trigger] m.dom().contains(k) implies exists|i: int|
            0 <= i < rv.len() && (#[trigger] rv[i]).file_path == k by {
            let i = choose|i: int| 0 <= i < raw@.len() && raw@[i]@.file_path == k;
            assert(rv[i].file_path == k);
        }
        lemma_listing_from_sorted(m, rv, views_of(sorted@));
    }
    Ok(sorted)
}

/// Flags the row at `file_path` as deleted, leaving every other row alone;
/// the result counts the rows the update touched: `1` when the path was
/// cataloged, `0` when it was not.
pub fn mark_as_deleted(conn: &mut rusqlite::Connection, file_path: &str) -> (r: Result<
    usize,
    CatalogError,
>)
    requires
        catalog_columns(*old(conn)) == current_columns(),
    ensures
        catalog_tx_base(*final(conn)) == catalog_tx_base(*old(conn)),
        r matches Ok(n) ==> catalog_columns(*final(conn)) == catalog_columns(*old(conn))
            && catalog_rows(*final(conn)) == mark_row_deleted(
            catalog_rows(*old(conn)),
            file_path@,
        ) && n == (if catalog_rows(*old(conn)).contains_key(file_path@) {
            1int
        } else {
            0int
        }),
        r is Err && catalog_autocommit(*old(conn)) ==> catalog_columns(*final(conn))
            == catalog_columns(*old(conn)) && catalog_rows(*final(conn)) == catalog_rows(
            *old(conn),
        ),
{
    match exec_mark_deleted(conn, file_path) {
        Ok(n) => Ok(n),
        Err(e) => Err(CatalogError::Storage(storage_error_text(&e))),
    }
}

} // verus!
