//! Readings of one-wire temperature sensors, as the operating system
//! exposes them through pseudo-files: the report grammar and its parser,
//! the sensor-id conventions, and the JSON snapshot a cycle publishes.
//! Every function here carries a contract; the surrounding daemon only
//! moves bytes between this library and the filesystem.

pub mod json;
pub mod path_id;
pub mod pipeline;
pub mod reading;
pub mod report;

pub use json::format_temperature;
pub use json::make_json;
pub use path_id::sensor_id_from_path;
pub use pipeline::SensorFile;
pub use pipeline::get_sensor_data;
pub use pipeline::get_sensor_files;
pub use pipeline::parse_sensor_file;
pub use pipeline::parse_sensor_file_tail;
pub use pipeline::sensor_glob_pattern;
pub use reading::SensorData;
pub use report::ReportError;
pub use report::parse_report_millis;
pub use report::parse_report_tail;
pub use report::tail_window;
