use reopal::db::{get_all_non_deleted_recordings, init_db, insert_record};
use reopal::maintenance::{
    enforce_quota, run_maintenance, select_victims, total_size, MaintenanceError, QuotaStatus,
};
use reopal::models::VideoRecording;
use rusqlite::Connection;

fn record(path: &str, date: &str, start: i64, size: u64) -> VideoRecording {
    VideoRecording {
        camera_name: "CAM".to_string(),
        date: date.to_string(),
        start_time: start,
        end_time: start + 60,
        file_path: path.to_string(),
        file_size: size,
        deleted: false,
    }
}

/// Four recordings of 10, 20, 30 and 40 bytes, oldest first.
fn seed(conn: &mut Connection) {
    init_db(conn).unwrap();
    insert_record(conn, &record("a.mp4", "01012024", 100, 10)).unwrap();
    insert_record(conn, &record("b.mp4", "01022024", 100, 20)).unwrap();
    insert_record(conn, &record("c.mp4", "01032024", 100, 30)).unwrap();
    insert_record(conn, &record("d.mp4", "01042024", 100, 40)).unwrap();
}

#[test]
fn total_size_sums_everything() {
    let records =
        vec![record("a.mp4", "01012024", 0, 10), record("b.mp4", "01012024", 1, 20)];
    assert_eq!(total_size(&records), 30);
    assert_eq!(total_size(&Vec::new()), 0);
}

#[test]
fn select_victims_takes_shortest_covering_prefix() {
    let records = vec![
        record("a.mp4", "01012024", 100, 10),
        record("b.mp4", "01022024", 100, 20),
        record("c.mp4", "01032024", 100, 30),
        record("d.mp4", "01042024", 100, 40),
    ];
    // total 100, quota 50: deficit 50 is covered only by 10 + 20 + 30
    let victims = select_victims(&records, 50).expect("over quota");
    let paths: Vec<&str> = victims.iter().map(|r| r.file_path.as_str()).collect();
    assert_eq!(paths, vec!["a.mp4", "b.mp4", "c.mp4"]);
    // deficit 1: the first recording already covers it
    let victims = select_victims(&records, 99).expect("over quota");
    assert_eq!(victims.len(), 1);
    assert_eq!(victims[0].file_path, "a.mp4");
    // within quota exactly: no victims at all
    assert!(select_victims(&records, 100).is_none());
    // quota smaller than every prefix: everything goes
    let victims = select_victims(&records, 0).expect("over quota");
    assert_eq!(victims.len(), 4);
}

#[test]
fn retention_scenario_deletes_the_three_oldest() {
    let mut conn = Connection::open_in_memory().unwrap();
    seed(&mut conn);
    match enforce_quota(&mut conn, 50, false).unwrap() {
        QuotaStatus::Deleted(victims) => {
            let paths: Vec<&str> = victims.iter().map(|r| r.file_path.as_str()).collect();
            assert_eq!(paths, vec!["a.mp4", "b.mp4", "c.mp4"]);
        }
        _ => panic!("expected recordings to be deleted"),
    }
    let rows = get_all_non_deleted_recordings(&mut conn).unwrap();
    assert_eq!(rows.len(), 1);
    assert_eq!(rows[0].file_path, "d.mp4");
    // what remains fits the quota
    assert!(total_size(&rows) <= 50);
}

#[test]
fn dry_run_reports_without_changing_anything() {
    let mut conn = Connection::open_in_memory().unwrap();
    seed(&mut conn);
    let before = get_all_non_deleted_recordings(&mut conn).unwrap();
    match enforce_quota(&mut conn, 50, true).unwrap() {
        QuotaStatus::WouldDelete(victims) => {
            let paths: Vec<&str> = victims.iter().map(|r| r.file_path.as_str()).collect();
            assert_eq!(paths, vec!["a.mp4", "b.mp4", "c.mp4"]);
        }
        _ => panic!("expected a dry-run report"),
    }
    let after = get_all_non_deleted_recordings(&mut conn).unwrap();
    assert_eq!(before.len(), after.len());
    for (b, a) in before.iter().zip(after.iter()) {
        assert_eq!(b.file_path, a.file_path);
        assert_eq!(b.deleted, a.deleted);
    }
    // a dry run at any other quota changes nothing either
    enforce_quota(&mut conn, 0, true).unwrap();
    assert_eq!(get_all_non_deleted_recordings(&mut conn).unwrap().len(), 4);
}

#[test]
fn within_quota_is_a_no_op() {
    let mut conn = Connection::open_in_memory().unwrap();
    seed(&mut conn);
    match enforce_quota(&mut conn, 100, false).unwrap() {
        QuotaStatus::WithinQuota => {}
        _ => panic!("total 100 fits a quota of 100"),
    }
    assert_eq!(get_all_non_deleted_recordings(&mut conn).unwrap().len(), 4);
}

#[test]
fn quota_strings_are_parsed_as_byte_sizes() {
    let mut conn = Connection::open_in_memory().unwrap();
    init_db(&mut conn).unwrap();
    insert_record(&mut conn, &record("a.mp4", "01012024", 100, 600)).unwrap();
    insert_record(&mut conn, &record("b.mp4", "01022024", 100, 600)).unwrap();
    // "1KB" is 1000 bytes: deficit 200, the oldest 600-byte recording covers it
    match run_maintenance(&mut conn, "1KB", false).unwrap() {
        QuotaStatus::Deleted(victims) => {
            assert_eq!(victims.len(), 1);
            assert_eq!(victims[0].file_path, "a.mp4");
        }
        _ => panic!("1200 bytes exceed 1KB"),
    }
    // "2KB" fits everything that is left
    match run_maintenance(&mut conn, "2KB", false).unwrap() {
        QuotaStatus::WithinQuota => {}
        _ => panic!("600 bytes fit 2KB"),
    }
}

#[test]
fn empty_catalog_is_always_within_quota() {
    let mut conn = Connection::open_in_memory().unwrap();
    init_db(&mut conn).unwrap();
    match enforce_quota(&mut conn, 0, false).unwrap() {
        QuotaStatus::WithinQuota => {}
        _ => panic!("an empty catalog holds zero bytes"),
    }
}

#[test]
fn storage_fault_is_surfaced() {
    let mut conn = Connection::open_in_memory().unwrap();
    init_db(&mut conn).unwrap();
    // pull the table out from under the engine: the next read must fail loudly
    conn.execute("DROP TABLE videos", []).unwrap();
    match run_maintenance(&mut conn, "1KB", false) {
        Err(MaintenanceError::Storage(_)) => {}
        _ => panic!("a missing table is a storage fault"),
    }
}

#[test]
fn unparseable_quota_is_rejected_before_any_work() {
    let mut conn = Connection::open_in_memory().unwrap();
    seed(&mut conn);
    match run_maintenance(&mut conn, "not-a-size", false) {
        Err(MaintenanceError::BadQuota) => {}
        _ => panic!("a malformed quota string must be rejected"),
    }
    assert_eq!(get_all_non_deleted_recordings(&mut conn).unwrap().len(), 4);
}
