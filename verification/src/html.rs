//! The data of the overview page: every configured room with the sensors
//! placed in it.

use vstd::prelude::*;
use vstd::string::*;
use crate::config::{Config, Sensor};
use crate::httpserver::sensors_in;
use crate::table::IdMap;

verus! {

/// What a page shows.
#[derive(Debug, Clone, Copy, PartialEq, Eq, Structural)]
pub enum What {
    Index,
    JavaScript,
    SensorData,
}

/// A sensor on the overview page.
#[derive(Debug, Clone)]
pub struct IndexSensor {
    pub name: String,
    pub id: String,
}

/// An action on the overview page.
#[derive(Debug, Clone)]
pub struct IndexAction {
    pub text: String,
    pub id: String,
}

/// A room on the overview page.
#[derive(Debug, Clone)]
pub struct IndexRoom {
    pub floor: String,
    pub name: String,
    pub actions: Vec<IndexAction>,
    pub sensors: Vec<IndexSensor>,
}

/// The overview page.
#[derive(Debug, Clone)]
pub struct IndexData {
    pub title: String,
    pub rooms: Vec<IndexRoom>,
}

/// `r` shows the room `entry` of the configuration: floor `?`, no actions,
/// and the sensors placed in it, in table order.
pub open spec fn shows_index_room(r: IndexRoom, entry: (String, crate::config::Room), sensors: Seq<(String, Sensor)>) -> bool {
    &&& r.floor@ == "?"@
    &&& r.name@ == entry.1.name@
    &&& r.actions@.len() == 0
    &&& r.sensors@.len() == sensors_in(sensors, entry.0@).len()
    &&& forall|k: int| 0 <= k < r.sensors@.len() ==> {
        &&& (#[trigger] r.sensors@[k]).name@ == sensors_in(sensors, entry.0@)[k].1.name@
        &&& r.sensors@[k].id@ == sensors_in(sensors, entry.0@)[k].0@
    }
}

fn index_sensors(room_id: &String, sensors: &IdMap<Sensor>) -> (r: Vec<IndexSensor>)
    ensures
        r@.len() == sensors_in(sensors@, room_id@).len(),
        forall|k: int| 0 <= k < r@.len() ==> {
            &&& (#[trigger] r@[k]).name@ == sensors_in(sensors@, room_id@)[k].1.name@
            &&& r@[k].id@ == sensors_in(sensors@, room_id@)[k].0@
        },
{
    let ghost pred = |e: (String, Sensor)| e.1.room_id@ == room_id@;
    let mut out: Vec<IndexSensor> = Vec::new();
    let n = sensors.len();
    let mut i: usize = 0;
    while i < n
        invariant
            n == sensors@.len(),
            i <= n,
            pred == (|e: (String, Sensor)| e.1.room_id@ == room_id@),
            out@.len() == sensors@.take(i as int).filter(pred).len(),
            forall|k: int| 0 <= k < out@.len() ==> {
                &&& (#[trigger] out@[k]).name@ == sensors@.take(i as int).filter(pred)[k].1.name@
                &&& out@[k].id@ == sensors@.take(i as int).filter(pred)[k].0@
            },
        decreases n - i,
    {
        proof {
            reveal_with_fuel(Seq::filter, 1);
            assert(sensors@.take(i + 1).drop_last() =~= sensors@.take(i as int));
        }
        let id = sensors.key_at(i);
        let sensor = sensors.value_at(i);
        if *&sensor.room_id == *room_id {
            out.push(IndexSensor { name: sensor.name.clone(), id: id.clone() });
        }
        i = i + 1;
    }
    assert(sensors@.take(n as int) =~= sensors@);
    out
}

/// The overview page: an empty title and every configured room, in table
/// order, with the sensors placed in it.
pub fn index_data(config: &Config) -> (d: IndexData)
    ensures
        d.title@.len() == 0,
        d.rooms@.len() == config.rooms@.len(),
        forall|k: int| 0 <= k < d.rooms@.len() ==>
            shows_index_room(#[trigger] d.rooms@[k], config.rooms@[k], config.sensors@),
{
    let mut rooms: Vec<IndexRoom> = Vec::new();
    let n = config.rooms.len();
    let mut i: usize = 0;
    while i < n
        invariant
            n == config.rooms@.len(),
            i <= n,
            rooms@.len() == i,
            forall|k: int| 0 <= k < i ==>
                shows_index_room(#[trigger] rooms@[k], config.rooms@[k], config.sensors@),
        decreases n - i,
    {
        let room_id = config.rooms.key_at(i);
        let room = config.rooms.value_at(i);
        proof {
            reveal_strlit("?");
        }
        let r = IndexRoom {
            floor: String::from_str("?"),
            name: room.name.clone(),
            actions: Vec::new(),
            sensors: index_sensors(room_id, &config.sensors),
        };
        rooms.push(r);
        i = i + 1;
    }
    IndexData { title: String::new(), rooms }
}

} // verus!
