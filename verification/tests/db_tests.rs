use reopal::db::{
    get_all_non_deleted_recordings, init_db, insert_record, mark_as_deleted, schema_is_current,
};
use reopal::models::VideoRecording;
use rusqlite::Connection;

fn record(path: &str, date: &str, start: i64, size: u64) -> VideoRecording {
    VideoRecording {
        camera_name: "CAM".to_string(),
        date: date.to_string(),
        start_time: start,
        end_time: start + 60,
        file_path: path.to_string(),
        file_size: size,
        deleted: false,
    }
}

#[test]
fn insert_and_list_roundtrip() {
    let mut conn = Connection::open_in_memory().unwrap();
    init_db(&mut conn).unwrap();
    let rec = record("01152024/CAM-00-a.mp4", "01152024", 1_700_000_000, 42);
    assert_eq!(insert_record(&mut conn, &rec).unwrap(), 1);
    let rows = get_all_non_deleted_recordings(&mut conn).unwrap();
    assert_eq!(rows.len(), 1);
    assert_eq!(rows[0].file_path, rec.file_path);
    assert_eq!(rows[0].camera_name, "CAM");
    assert_eq!(rows[0].date, "01152024");
    assert_eq!(rows[0].start_time, 1_700_000_000);
    assert_eq!(rows[0].end_time, 1_700_000_060);
    assert_eq!(rows[0].file_size, 42);
    assert!(!rows[0].deleted);
}

#[test]
fn duplicate_insert_is_ignored_and_never_updates() {
    let mut conn = Connection::open_in_memory().unwrap();
    init_db(&mut conn).unwrap();
    let rec = record("p.mp4", "01152024", 100, 42);
    assert_eq!(insert_record(&mut conn, &rec).unwrap(), 1);
    // same path, different metadata: must be a silent no-op
    let changed = record("p.mp4", "02152024", 999, 7);
    assert_eq!(insert_record(&mut conn, &changed).unwrap(), 0);
    let rows = get_all_non_deleted_recordings(&mut conn).unwrap();
    assert_eq!(rows.len(), 1);
    assert_eq!(rows[0].date, "01152024");
    assert_eq!(rows[0].start_time, 100);
    assert_eq!(rows[0].file_size, 42);
}

#[test]
fn listing_is_ordered_by_date_then_start() {
    let mut conn = Connection::open_in_memory().unwrap();
    init_db(&mut conn).unwrap();
    insert_record(&mut conn, &record("c.mp4", "02012024", 50, 1)).unwrap();
    insert_record(&mut conn, &record("a.mp4", "01312024", 300, 1)).unwrap();
    insert_record(&mut conn, &record("b.mp4", "01312024", 400, 1)).unwrap();
    let rows = get_all_non_deleted_recordings(&mut conn).unwrap();
    let paths: Vec<&str> = rows.iter().map(|r| r.file_path.as_str()).collect();
    assert_eq!(paths, vec!["a.mp4", "b.mp4", "c.mp4"]);
}

#[test]
fn mark_as_deleted_hides_a_row() {
    let mut conn = Connection::open_in_memory().unwrap();
    init_db(&mut conn).unwrap();
    insert_record(&mut conn, &record("x.mp4", "01152024", 1, 1)).unwrap();
    insert_record(&mut conn, &record("y.mp4", "01152024", 2, 1)).unwrap();
    assert_eq!(mark_as_deleted(&mut conn, "x.mp4").unwrap(), 1);
    let rows = get_all_non_deleted_recordings(&mut conn).unwrap();
    assert_eq!(rows.len(), 1);
    assert_eq!(rows[0].file_path, "y.mp4");
    // an unknown path touches nothing
    assert_eq!(mark_as_deleted(&mut conn, "missing.mp4").unwrap(), 0);
    assert_eq!(get_all_non_deleted_recordings(&mut conn).unwrap().len(), 1);
}

#[test]
fn migration_preserves_legacy_rows() {
    let mut conn = Connection::open_in_memory().unwrap();
    // the legacy layout: timestamps stored as plain text
    conn.execute(
        "CREATE TABLE videos (file_path TEXT PRIMARY KEY, camera_name TEXT NOT NULL, \
         date TEXT NOT NULL, start_time TEXT NOT NULL, end_time TEXT NOT NULL, \
         file_size INTEGER NOT NULL, deleted BOOLEAN NOT NULL DEFAULT 0)",
        [],
    )
    .unwrap();
    for (path, start, end) in [
        ("a.mp4", "2024-01-15 12:00:00", "2024-01-15 12:30:00"),
        ("b.mp4", "2024-01-15 13:00:00", "2024-01-15 13:30:00"),
        ("c.mp4", "2024-01-16 00:00:00", "2024-01-16 00:30:00"),
    ] {
        conn.execute(
            "INSERT INTO videos VALUES (?1, 'CAM', '01152024', ?2, ?3, 10, 0)",
            (path, start, end),
        )
        .unwrap();
    }
    init_db(&mut conn).unwrap();
    // exactly the same rows, timestamps now unix seconds
    let rows = get_all_non_deleted_recordings(&mut conn).unwrap();
    assert_eq!(rows.len(), 3);
    let a = rows.iter().find(|r| r.file_path == "a.mp4").unwrap();
    assert_eq!(a.start_time, 1_705_320_000);
    assert_eq!(a.end_time, 1_705_321_800);
    // the legacy table is gone
    let leftovers: i64 = conn
        .query_row(
            "SELECT COUNT(*) FROM sqlite_master WHERE type = 'table' AND name = 'videos_legacy'",
            [],
            |row| row.get(0),
        )
        .unwrap();
    assert_eq!(leftovers, 0);
    // and the live table now declares integer timestamps
    let decl: String = conn
        .query_row(
            "SELECT type FROM pragma_table_info('videos') WHERE name = 'start_time'",
            [],
            |row| row.get(0),
        )
        .unwrap();
    assert_eq!(decl, "INTEGER");
}

#[test]
fn oversized_file_is_a_storage_error() {
    let mut conn = Connection::open_in_memory().unwrap();
    init_db(&mut conn).unwrap();
    let mut rec = record("huge.mp4", "01152024", 1, 0);
    rec.file_size = u64::MAX;
    match insert_record(&mut conn, &rec) {
        Err(reopal::db::CatalogError::Storage(_)) => {}
        _ => panic!("a size past the integer column must be refused"),
    }
    assert_eq!(get_all_non_deleted_recordings(&mut conn).unwrap().len(), 0);
}

#[test]
fn migration_covers_datetime_declared_columns() {
    let mut conn = Connection::open_in_memory().unwrap();
    // an older layout that declared DATETIME and stored datetime text
    conn.execute(
        "CREATE TABLE videos (file_path TEXT PRIMARY KEY, camera_name TEXT NOT NULL, \
         date TEXT NOT NULL, start_time DATETIME NOT NULL, end_time DATETIME NOT NULL, \
         file_size INTEGER NOT NULL, deleted BOOLEAN NOT NULL DEFAULT 0)",
        [],
    )
    .unwrap();
    conn.execute(
        "INSERT INTO videos VALUES ('a.mp4', 'CAM', '01152024', \
         '2024-01-15 12:00:00', '2024-01-15 12:30:00', 10, 0)",
        [],
    )
    .unwrap();
    init_db(&mut conn).unwrap();
    assert_eq!(schema_is_current(&conn).unwrap(), true);
    let rows = get_all_non_deleted_recordings(&mut conn).unwrap();
    assert_eq!(rows.len(), 1);
    assert_eq!(rows[0].start_time, 1_705_320_000);
    assert_eq!(rows[0].end_time, 1_705_321_800);
}

#[test]
fn schema_tester_accepts_the_maintained_layout() {
    let mut conn = Connection::open_in_memory().unwrap();
    // no table yet: not the current layout
    assert_eq!(schema_is_current(&conn).unwrap(), false);
    init_db(&mut conn).unwrap();
    assert_eq!(schema_is_current(&conn).unwrap(), true);
}

#[test]
fn schema_tester_rejects_a_lookalike_without_primary_key() {
    let mut conn = Connection::open_in_memory().unwrap();
    // the same names and declared types, but no primary key on file_path
    conn.execute(
        "CREATE TABLE videos (file_path TEXT, camera_name TEXT NOT NULL, \
         date TEXT NOT NULL, start_time INTEGER NOT NULL, end_time INTEGER NOT NULL, \
         file_size INTEGER NOT NULL, deleted BOOLEAN NOT NULL DEFAULT 0)",
        [],
    )
    .unwrap();
    assert_eq!(schema_is_current(&conn).unwrap(), false);
    // opening does not touch a non-legacy table of another shape
    init_db(&mut conn).unwrap();
    assert_eq!(schema_is_current(&conn).unwrap(), false);
}

#[test]
fn init_db_on_current_schema_keeps_rows() {
    let mut conn = Connection::open_in_memory().unwrap();
    init_db(&mut conn).unwrap();
    insert_record(&mut conn, &record("kept.mp4", "01152024", 5, 9)).unwrap();
    init_db(&mut conn).unwrap();
    let rows = get_all_non_deleted_recordings(&mut conn).unwrap();
    assert_eq!(rows.len(), 1);
    assert_eq!(rows[0].file_path, "kept.mp4");
}
