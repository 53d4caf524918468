use kure::sensor_id_from_path;

#[test]
fn id_from_sensor_path() {
    let path = "/sys/devices/w1_bus_master1/28-0000001a2b3c/w1_slave";
    assert_eq!(sensor_id_from_path(path), Some(String::from("0000001a2b3c")));
}

#[test]
fn id_missing_from_plain_path() {
    assert_eq!(sensor_id_from_path("/tmp/foo/bar"), None);
}

#[test]
fn id_of_last_sensor_component_wins() {
    assert_eq!(
        sensor_id_from_path("/a/28-aa/28-bb/w1_slave"),
        Some(String::from("bb"))
    );
}

#[test]
fn id_needs_a_separator_after_the_suffix() {
    assert_eq!(sensor_id_from_path("/a/28-abc"), None);
}

#[test]
fn id_stops_at_a_non_hex_character() {
    assert_eq!(sensor_id_from_path("/a/28-12g4/w1_slave"), None);
    assert_eq!(sensor_id_from_path("/a/28-12f4/w1_slave"), Some(String::from("12f4")));
}

#[test]
fn id_accepts_mixed_case_hex() {
    assert_eq!(
        sensor_id_from_path("/base/28-00A1b2C3/w1_slave"),
        Some(String::from("00A1b2C3"))
    );
}
