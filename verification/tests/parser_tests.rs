use reopal::parser::{parse_path, parse_time_to_seconds};

#[test]
fn parses_valid_video_path() {
    let rec = parse_path("01152024/CAM-00-120000-123000.mp4", 1000, 1_700_000_000)
        .expect("a well-formed path must parse");
    assert_eq!(rec.camera_name, "CAM");
    assert_eq!(rec.date, "01152024");
    assert_eq!(rec.file_path, "01152024/CAM-00-120000-123000.mp4");
    assert_eq!(rec.file_size, 1000);
    assert_eq!(rec.end_time, 1_700_000_000);
    assert_eq!(rec.end_time - rec.start_time, 1800);
    assert!(!rec.deleted);
}

#[test]
fn parses_nested_path() {
    let rec = parse_path("/srv/cams/01152024/Gate-01-000000-003000.mp4", 5, 1_700_000_000)
        .expect("a nested path must parse");
    assert_eq!(rec.camera_name, "Gate");
    assert_eq!(rec.date, "01152024");
    assert_eq!(rec.end_time - rec.start_time, 1800);
}

#[test]
fn duration_wraps_across_midnight() {
    let rec = parse_path("01152024/CAM-00-235900-000100.mp4", 1, 1_700_000_000)
        .expect("a midnight-crossing recording must parse");
    assert_eq!(rec.end_time - rec.start_time, 120);
}

#[test]
fn rejects_wrong_extension() {
    assert!(parse_path("01152024/CAM-00-120000-123000.avi", 1, 0).is_none());
    assert!(parse_path("01152024/CAM-00-120000-123000", 1, 0).is_none());
}

#[test]
fn rejects_bad_parent_directory() {
    // seven digits
    assert!(parse_path("0115202/CAM-00-120000-123000.mp4", 1, 0).is_none());
    // nine digits
    assert!(parse_path("011520244/CAM-00-120000-123000.mp4", 1, 0).is_none());
    // a letter among the digits
    assert!(parse_path("0115202A/CAM-00-120000-123000.mp4", 1, 0).is_none());
    // no parent directory at all
    assert!(parse_path("CAM-00-120000-123000.mp4", 1, 0).is_none());
}

#[test]
fn rejects_wrong_field_count() {
    // five fields
    assert!(parse_path("01152024/CAM-00-01-120000-123000.mp4", 1, 0).is_none());
    // three fields
    assert!(parse_path("01152024/CAM-120000-123000.mp4", 1, 0).is_none());
}

#[test]
fn rejects_bad_time_tokens() {
    // five-digit token
    assert!(parse_path("01152024/CAM-00-12000-123000.mp4", 1, 0).is_none());
    // hour 24
    assert!(parse_path("01152024/CAM-00-240000-123000.mp4", 1, 0).is_none());
    // minute 60
    assert!(parse_path("01152024/CAM-00-126000-123000.mp4", 1, 0).is_none());
    // second 60
    assert!(parse_path("01152024/CAM-00-120060-123000.mp4", 1, 0).is_none());
    // letters in the token
    assert!(parse_path("01152024/CAM-00-12ab00-123000.mp4", 1, 0).is_none());
}

#[test]
fn time_token_values() {
    assert_eq!(parse_time_to_seconds("000000"), Some(0));
    assert_eq!(parse_time_to_seconds("120000"), Some(43200));
    assert_eq!(parse_time_to_seconds("235959"), Some(86399));
    assert_eq!(parse_time_to_seconds("010203"), Some(3723));
}

#[test]
fn time_token_rejections() {
    assert_eq!(parse_time_to_seconds("240000"), None);
    assert_eq!(parse_time_to_seconds("006000"), None);
    assert_eq!(parse_time_to_seconds("000060"), None);
    assert_eq!(parse_time_to_seconds("12345"), None);
    assert_eq!(parse_time_to_seconds("1234567"), None);
    assert_eq!(parse_time_to_seconds("12a000"), None);
    assert_eq!(parse_time_to_seconds(""), None);
}
