use vstd::prelude::*;

verus! {

/// One validated temperature reading taken from a sensor's report file.
///
/// The temperature is kept as the raw device count in millidegrees
/// Celsius; the JSON renderer divides by 1000 when it prints the value.
pub struct SensorData {
    /// Label of the physical sensor, taken from its directory name.
    pub id: String,
    /// Temperature in millidegrees Celsius (thousandths of a degree).
    pub millidegrees: i64,
    /// RFC 3339 timestamp associated with the reading.
    pub timestamp: String,
}

impl SensorData {
    /// A reading is only ever constructed for a temperature inside the
    /// plausible device range of -100 C to 100 C.
    pub open spec fn valid(self) -> bool {
        -100000 <= self.millidegrees <= 100000
    }
}

} // verus!
