//! Weather readings kept by sensor name.

use vstd::prelude::*;
use crate::data::Value;
use crate::table::IdMap;

verus! {

/// A weather reading; the first field of a reading is the time it was
/// received (seconds since the UNIX epoch).
#[derive(Debug, Copy, Clone)]
pub enum Measurement {
    _Error,
    Undefined,
    /// Degrees Celsius.
    Temperature(u64, Value),
    /// Lux.
    Brightness(u64, Value),
}

/// The weather readings.
pub struct Wetter {
    pub till: Measurement,
    pub flur_brightness: Measurement,
    pub measurements: IdMap<Measurement>,
}

impl Wetter {
    /// No readings yet.
    pub fn new() -> (w: Wetter)
        ensures
            w.till is Undefined,
            w.flur_brightness is Undefined,
            w.measurements.wf(),
            w.measurements@.len() == 0,
    {
        Wetter {
            measurements: IdMap::new(),
            till: Measurement::Undefined,
            flur_brightness: Measurement::Undefined,
        }
    }
}

} // verus!
