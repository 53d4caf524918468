use kure::ReportError;
use kure::SensorFile;
use kure::get_sensor_data;
use kure::get_sensor_files;
use kure::make_json;
use kure::parse_sensor_file;
use kure::parse_sensor_file_tail;
use kure::sensor_glob_pattern;

const GOOD: &str = "aa bb cc dd ee ff 00 11 22 : crc=4f YES\n01 02 03 04 05 06 07 08 ff t=23562";
const BAD: &str = "aa bb cc dd ee ff 00 11 22 : crc=4f NO\n01 02 03 04 05 06 07 08 ff t=23562";

#[test]
fn sensor_files_get_the_fixed_report_name() {
    let dirs = vec![
        String::from("/base/28-0000001a2b3c"),
        String::from("/base/28-0000004d5e6f"),
    ];
    let files = get_sensor_files(&dirs);
    assert_eq!(
        files,
        vec![
            String::from("/base/28-0000001a2b3c/w1_slave"),
            String::from("/base/28-0000004d5e6f/w1_slave"),
        ]
    );
}

#[test]
fn no_dirs_means_no_files() {
    assert_eq!(get_sensor_files(&Vec::new()), Vec::<String>::new());
}

#[test]
fn glob_pattern_appends_family_prefix() {
    assert_eq!(
        sensor_glob_pattern("/sys/devices/w1_bus_master1/"),
        "/sys/devices/w1_bus_master1/28-*"
    );
}

#[test]
fn full_scan_reading_takes_id_from_path() {
    let r = parse_sensor_file(
        "/base/28-0000001a2b3c/w1_slave",
        GOOD,
        String::from("2021-01-01T00:00:00+00:00"),
    )
    .unwrap();
    assert_eq!(r.id, "0000001a2b3c");
    assert_eq!(r.millidegrees, 23562);
    assert_eq!(r.timestamp, "2021-01-01T00:00:00+00:00");
}

#[test]
fn full_scan_falls_back_to_none_label() {
    let r = parse_sensor_file("/odd/path", GOOD, String::from("t")).unwrap();
    assert_eq!(r.id, "none");
}

#[test]
fn invalid_marker_yields_no_reading() {
    let r = parse_sensor_file("/base/28-0000001a2b3c/w1_slave", BAD, String::from("t"));
    assert_eq!(r.map(|d| d.id), Err(ReportError::Malformed));
}

#[test]
fn tail_reading_takes_embedded_id_and_given_timestamp() {
    let r = parse_sensor_file_tail(GOOD, String::from("2020-12-31T23:59:30+00:00")).unwrap();
    assert_eq!(r.id, "01 02 03 04 05 06 07 08");
    assert_eq!(r.millidegrees, 23562);
    assert_eq!(r.timestamp, "2020-12-31T23:59:30+00:00");
}

#[test]
fn cycle_skips_invalid_sensors() {
    let files = vec![
        SensorFile {
            path: String::from("/base/28-0000001a2b3c/w1_slave"),
            content: String::from(GOOD),
        },
        SensorFile {
            path: String::from("/base/28-0000004d5e6f/w1_slave"),
            content: String::from(BAD),
        },
    ];
    let data = get_sensor_data(&files);
    assert_eq!(data.len(), 1);
    assert_eq!(data[0].id, "0000001a2b3c");
    assert_eq!(data[0].millidegrees, 23562);
    assert!(chrono::DateTime::parse_from_rfc3339(&data[0].timestamp).is_ok());
}

#[test]
fn empty_cycle_snapshot_is_empty_object() {
    let data = get_sensor_data(&Vec::new());
    assert!(data.is_empty());
    assert_eq!(make_json(&data), "{}\n");
}

#[test]
fn cycle_snapshot_contains_valid_entries() {
    let files = vec![SensorFile {
        path: String::from("/base/28-0000001a2b3c/w1_slave"),
        content: String::from(GOOD),
    }];
    let data = get_sensor_data(&files);
    let json = make_json(&data);
    let parsed: serde_json::Value = serde_json::from_str(&json).unwrap();
    assert_eq!(parsed["0000001a2b3c"]["temperature"].as_f64(), Some(23.562));
}
