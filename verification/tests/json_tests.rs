use kure::SensorData;
use kure::format_temperature;
use kure::make_json;

fn reading(id: &str, millidegrees: i64, timestamp: &str) -> SensorData {
    SensorData { id: String::from(id), millidegrees, timestamp: String::from(timestamp) }
}

#[test]
fn empty_snapshot_is_empty_object() {
    let json = make_json(&Vec::new());
    assert_eq!(json, "{}\n");
    let parsed: serde_json::Value = serde_json::from_str(&json).unwrap();
    assert!(parsed.as_object().unwrap().is_empty());
}

#[test]
fn one_reading_document_is_exact() {
    let data = vec![reading("0000001a2b3c", 23562, "2021-01-01T00:00:00+00:00")];
    let json = make_json(&data);
    assert_eq!(
        json,
        "{\n  \"0000001a2b3c\": {\n    \"timestamp\": \"2021-01-01T00:00:00+00:00\",\n    \"temperature\": 23.562\n  }\n}\n"
    );
}

#[test]
fn two_readings_round_trip() {
    let data = vec![
        reading("0000001a2b3c", 23562, "2021-01-01T00:00:00+00:00"),
        reading("0000004d5e6f", -1500, "2021-01-01T00:00:30+00:00"),
    ];
    let json = make_json(&data);
    assert!(!json.contains("},\n}"));
    let parsed: serde_json::Value = serde_json::from_str(&json).unwrap();
    let object = parsed.as_object().unwrap();
    assert_eq!(object.len(), 2);
    assert_eq!(parsed["0000001a2b3c"]["temperature"].as_f64(), Some(23.562));
    assert_eq!(parsed["0000004d5e6f"]["temperature"].as_f64(), Some(-1.5));
    assert_eq!(
        parsed["0000001a2b3c"]["timestamp"].as_str(),
        Some("2021-01-01T00:00:00+00:00")
    );
}

#[test]
fn temperatures_format_exactly() {
    assert_eq!(format_temperature(23562), "23.562");
    assert_eq!(format_temperature(-1500), "-1.5");
    assert_eq!(format_temperature(0), "0");
    assert_eq!(format_temperature(50), "0.05");
    assert_eq!(format_temperature(1), "0.001");
    assert_eq!(format_temperature(-1), "-0.001");
    assert_eq!(format_temperature(100000), "100");
    assert_eq!(format_temperature(-100000), "-100");
    assert_eq!(format_temperature(30000), "30");
    assert_eq!(format_temperature(20125), "20.125");
}

#[test]
fn formatted_temperature_reads_back_exactly() {
    for m in [23562i64, -1500, 0, 50, 1, -1, 100000, -100000, 99999] {
        let s = format_temperature(m);
        let v: f64 = s.parse().unwrap();
        assert_eq!(v, m as f64 / 1000.0);
    }
}
