use reopal::db::{get_all_non_deleted_recordings, init_db};
use reopal::scanner::{scan_candidates, CandidateFile};
use rusqlite::Connection;

fn candidate(path: &str, size: u64, created: i64) -> CandidateFile {
    CandidateFile { path: path.to_string(), file_size: size, created_unix: created }
}

#[test]
fn scan_keeps_valid_files_and_skips_the_rest() {
    let mut conn = Connection::open_in_memory().unwrap();
    init_db(&mut conn).unwrap();
    let files = vec![
        candidate("01152024/CAM-00-120000-123000.mp4", 100, 1_700_000_000),
        candidate("01152024/notes.txt", 5, 1_700_000_000),
        candidate("baddir/CAM-00-120000-123000.mp4", 5, 1_700_000_000),
        candidate("01152024/Gate-00-130000-133000.mp4", 200, 1_700_010_000),
    ];
    let added = scan_candidates(&mut conn, &files).unwrap();
    assert_eq!(added, 2);
    let rows = get_all_non_deleted_recordings(&mut conn).unwrap();
    assert_eq!(rows.len(), 2);
    assert!(rows.iter().any(|r| r.file_path == "01152024/CAM-00-120000-123000.mp4"));
    assert!(rows.iter().any(|r| r.file_path == "01152024/Gate-00-130000-133000.mp4"));
}

#[test]
fn rescanning_the_same_directory_adds_nothing() {
    let mut conn = Connection::open_in_memory().unwrap();
    init_db(&mut conn).unwrap();
    let files = vec![
        candidate("01152024/CAM-00-120000-123000.mp4", 100, 1_700_000_000),
        candidate("01152024/Gate-00-130000-133000.mp4", 200, 1_700_010_000),
    ];
    assert_eq!(scan_candidates(&mut conn, &files).unwrap(), 2);
    // the second scan of the very same files inserts nothing
    assert_eq!(scan_candidates(&mut conn, &files).unwrap(), 0);
    assert_eq!(get_all_non_deleted_recordings(&mut conn).unwrap().len(), 2);
}

#[test]
fn duplicate_path_in_one_batch_is_inserted_once() {
    let mut conn = Connection::open_in_memory().unwrap();
    init_db(&mut conn).unwrap();
    let files = vec![
        candidate("01152024/CAM-00-120000-123000.mp4", 100, 1_700_000_000),
        candidate("01152024/CAM-00-120000-123000.mp4", 999, 1_700_099_999),
    ];
    assert_eq!(scan_candidates(&mut conn, &files).unwrap(), 1);
    let rows = get_all_non_deleted_recordings(&mut conn).unwrap();
    assert_eq!(rows.len(), 1);
    // the first occurrence won and was never refreshed
    assert_eq!(rows[0].file_size, 100);
}
