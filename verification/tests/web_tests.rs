use reopal::cli::{
    default_cache_dir, default_host, default_port, default_quality, default_session_timeout,
    WebViewerConfig,
};
use reopal::models::VideoRecording;
use reopal::web::{
    convert_iso_date_to_db_format, format_time_to_string, parse_range_header, to_video_response,
};

#[test]
fn range_header_with_both_bounds() {
    assert_eq!(parse_range_header("bytes=0-1023", 2048), Some((0, 1023)));
    assert_eq!(parse_range_header("bytes=100-200", 2048), Some((100, 200)));
}

#[test]
fn range_header_with_open_ends() {
    // an omitted end means the file's last byte
    assert_eq!(parse_range_header("bytes=500-", 2048), Some((500, 2047)));
    // an omitted start means byte zero
    assert_eq!(parse_range_header("bytes=-500", 2048), Some((0, 500)));
}

#[test]
fn range_header_rejections() {
    assert_eq!(parse_range_header("0-100", 2048), None);
    assert_eq!(parse_range_header("bytes=1-2-3", 2048), None);
    assert_eq!(parse_range_header("bytes=a-b", 2048), None);
    assert_eq!(parse_range_header("bytes=", 2048), None);
    assert_eq!(parse_range_header("", 2048), None);
}

#[test]
fn formats_time_of_day() {
    assert_eq!(format_time_to_string(0), "000000");
    // 1700000000 falls at 22:13:20 UTC
    assert_eq!(format_time_to_string(1_700_000_000), "221320");
    assert_eq!(format_time_to_string(86399), "235959");
    assert_eq!(format_time_to_string(86400), "000000");
    // pre-epoch instants read as the nonnegative remainder of their day
    assert_eq!(format_time_to_string(-1), "235959");
    assert_eq!(format_time_to_string(-86400), "000000");
}

#[test]
fn converts_iso_dates_to_catalog_keys() {
    assert_eq!(convert_iso_date_to_db_format("2024-01-15").unwrap(), "01152024");
    assert_eq!(convert_iso_date_to_db_format("2024-12-31").unwrap(), "12312024");
    // February 29 exists only in leap years
    assert_eq!(convert_iso_date_to_db_format("2024-02-29").unwrap(), "02292024");
    assert!(convert_iso_date_to_db_format("2023-02-29").is_none());
}

#[test]
fn rejects_malformed_iso_dates() {
    assert!(convert_iso_date_to_db_format("24-01-15").is_none());
    assert!(convert_iso_date_to_db_format("2024-13-01").is_none());
    assert!(convert_iso_date_to_db_format("2024-00-10").is_none());
    assert!(convert_iso_date_to_db_format("2024-04-31").is_none());
    assert!(convert_iso_date_to_db_format("2024/01/15").is_none());
    assert!(convert_iso_date_to_db_format("2024-01-15x").is_none());
}

#[test]
fn viewer_defaults() {
    assert_eq!(default_host(), "0.0.0.0");
    assert_eq!(default_port(), 8080);
    assert_eq!(default_session_timeout(), "24h");
    assert_eq!(default_cache_dir(), "./thumbnails");
    assert_eq!(default_quality(), "medium");
    let d = WebViewerConfig::default();
    assert_eq!(d.host, "0.0.0.0");
    assert_eq!(d.port, 8080);
    assert!(d.auth.is_none());
    assert!(d.thumbnails.is_none());
    assert_eq!(d.max_concurrent_streams, 10);
    assert_eq!(d.cache_size, "1GB");
    assert!(d.features.is_none());
}

#[test]
fn renders_a_recording_for_the_viewer() {
    let rec = VideoRecording {
        camera_name: "CAM".to_string(),
        date: "01152024".to_string(),
        start_time: 1_700_000_000 - 1800,
        end_time: 1_700_000_000,
        file_path: "01152024/CAM-00-a.mp4".to_string(),
        file_size: 99,
        deleted: false,
    };
    let resp = to_video_response("id42".to_string(), &rec);
    assert_eq!(resp.id, "id42");
    assert_eq!(resp.camera_name, "CAM");
    assert_eq!(resp.date, "01152024");
    assert_eq!(resp.start_time, "214320");
    assert_eq!(resp.end_time, "221320");
    assert_eq!(resp.file_size, 99);
    assert_eq!(resp.file_path, "01152024/CAM-00-a.mp4");
    assert!(!resp.deleted);
}
