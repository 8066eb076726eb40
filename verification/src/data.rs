//! Measured values and the in-memory store of the latest measurement of
//! each sensor and switch.

use vstd::prelude::*;
use crate::config::{Sensor, Switch};
use crate::table::{has_key, IdMap};

verus! {

/// The unit of a measured value.
#[derive(Debug, Clone, Copy, PartialEq, Eq, Structural)]
pub enum Unit {
    One,
    Celsius,
    Lux,
    _Watts,
}

/// What a sensor measures.
#[derive(Debug, Clone, Copy, PartialEq, Eq, Structural)]
pub enum Dimension {
    Unspecified,
    Temperature,
    Brightness,
    Percent,
    OnOff,
}

/// A measured value, exactly as the telegram encodes it.
#[derive(Debug, Clone, Copy, PartialEq, Eq, Structural)]
pub enum Value {
    /// A two-byte KNX float: `magnitude / 100`, negated when `negative`.
    Float16 { negative: bool, magnitude: u32 },
    /// A switch state: 1 when on, 0 when off.
    Switch(bool),
    /// A byte scaled to percent: `raw * 100 / 255`.
    Scaled(u8),
}

/// The numerator of a value written as a fraction.
pub open spec fn value_numerator(v: Value) -> int {
    match v {
        Value::Float16 { negative, magnitude } => if negative { -(magnitude as int) } else { magnitude as int },
        Value::Switch(on) => if on { 1 } else { 0 },
        Value::Scaled(raw) => raw as int * 100,
    }
}

/// The denominator of a value written as a fraction.
pub open spec fn value_denominator(v: Value) -> int {
    match v {
        Value::Float16 { .. } => 100,
        Value::Switch(_) => 1,
        Value::Scaled(_) => 255,
    }
}

/// The latest measurement of one sensor or switch. `timestamp` counts
/// seconds since the UNIX epoch.
#[derive(Debug, Copy, Clone)]
pub struct Measurement {
    pub timestamp: u64,
    pub dimension: Dimension,
    pub unit: Unit,
    pub value: Option<Value>,
}

/// The store of measurements, by sensor or switch identifier.
pub struct Data {
    pub measurements: IdMap<Measurement>,
}

/// The error text of a second registration under one identifier.
pub open spec fn already_created_text() -> Seq<char> {
    "measurement entry for sensor already created"@
}

/// Once an identifier is registered, registering it again is refused:
/// after a registration of `id` (the store grown by an entry for `id`), the
/// store has `id`, which `add_sensor` and `add_switch` refuse.
pub proof fn law_register_once(before: Seq<(String, Measurement)>, after: Seq<(String, Measurement)>, id: Seq<char>)
    requires
        after.len() == before.len() + 1,
        after.drop_last() == before,
        after.last().0@ == id,
    ensures
        has_key(after, id),
{
    assert(after[after.len() - 1].0@ == id);
}

impl Data {
    /// An empty store.
    pub fn new() -> (d: Data)
        ensures
            d.measurements.wf(),
            d.measurements@.len() == 0,
    {
        Data { measurements: IdMap::new() }
    }

    /// The latest measurement stored under `id`, for updating it in place.
    pub fn get_mut(&mut self, id: &String) -> (r: Option<&mut Measurement>)
        requires
            old(self).measurements.wf(),
        ensures
            final(self).measurements.wf(),
            match r {
                Some(v) => exists|i: int|
                    0 <= i < old(self).measurements@.len()
                        && #[trigger] old(self).measurements@[i].0@ == id@
                        && *v == old(self).measurements@[i].1
                        && final(self).measurements@ == old(self).measurements@.update(
                            i,
                            (old(self).measurements@[i].0, *final(v)),
                        ),
                None => !has_key(old(self).measurements@, id@)
                    && final(self).measurements@ == old(self).measurements@,
            },
    {
        self.measurements.get_mut(id.as_str())
    }

    /// Registers an empty measurement, taken at `now`, for a sensor; its
    /// dimension is the sensor's. Refused when `id` is registered already.
    pub fn add_sensor(&mut self, id: &String, sensor: &Sensor, now: u64) -> (r: Result<(), String>)
        requires
            old(self).measurements.wf(),
        ensures
            final(self).measurements.wf(),
            match r {
                Ok(()) => !has_key(old(self).measurements@, id@)
                    && final(self).measurements@.len() == old(self).measurements@.len() + 1
                    && final(self).measurements@.drop_last() == old(self).measurements@
                    && final(self).measurements@.last().0@ == id@
                    && final(self).measurements@.last().1 == (Measurement {
                        timestamp: now,
                        dimension: crate::config::dimension_named(sensor.dimension@),
                        unit: Unit::One,
                        value: None,
                    }),
                Err(msg) => has_key(old(self).measurements@, id@)
                    && msg@ == already_created_text()
                    && final(self).measurements@ == old(self).measurements@,
            },
    {
        if self.measurements.contains_key(id.as_str()) {
            Err(String::from_str("measurement entry for sensor already created"))
        } else {
            let initial = Measurement {
                timestamp: now,
                unit: Unit::One,
                dimension: sensor.get_dimension(),
                value: None,
            };
            self.measurements.insert(id.clone(), initial);
            assert(self.measurements@.drop_last() =~= old(self).measurements@);
            Ok(())
        }
    }

    /// Registers an empty on/off measurement, taken at `now`, for a switch.
    /// Refused when `id` is registered already.
    pub fn add_switch(&mut self, id: &String, _switch: &Switch, now: u64) -> (r: Result<(), String>)
        requires
            old(self).measurements.wf(),
        ensures
            final(self).measurements.wf(),
            match r {
                Ok(()) => !has_key(old(self).measurements@, id@)
                    && final(self).measurements@.len() == old(self).measurements@.len() + 1
                    && final(self).measurements@.drop_last() == old(self).measurements@
                    && final(self).measurements@.last().0@ == id@
                    && final(self).measurements@.last().1 == (Measurement {
                        timestamp: now,
                        dimension: Dimension::OnOff,
                        unit: Unit::One,
                        value: None,
                    }),
                Err(msg) => has_key(old(self).measurements@, id@)
                    && msg@ == already_created_text()
                    && final(self).measurements@ == old(self).measurements@,
            },
    {
        if self.measurements.contains_key(id.as_str()) {
            Err(String::from_str("measurement entry for sensor already created"))
        } else {
            let initial = Measurement {
                timestamp: now,
                unit: Unit::One,
                dimension: Dimension::OnOff,
                value: None,
            };
            self.measurements.insert(id.clone(), initial);
            assert(self.measurements@.drop_last() =~= old(self).measurements@);
            Ok(())
        }
    }
}

} // verus!
