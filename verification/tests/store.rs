use knx_home::config::{Sensor, Switch};
use knx_home::data::{Data, Dimension, Unit, Value};
use knx_home::table::IdMap;

fn sensor(dimension: &str) -> Sensor {
    Sensor {
        dimension: dimension.to_string(),
        name: "n".to_string(),
        room_id: "r".to_string(),
        eibaddr: "1/1/1".to_string(),
    }
}

fn switch() -> Switch {
    Switch {
        name: "s".to_string(),
        room_id: "r".to_string(),
        eibaddr_command: "1/1/2".to_string(),
        eibaddr_status: "1/1/3".to_string(),
        commands: vec!["on".to_string()],
    }
}

#[test]
fn add_sensor_registers_once() {
    let mut d = Data::new();
    assert_eq!(d.add_sensor(&"t1".to_string(), &sensor("temperature"), 100), Ok(()));
    let m = d.measurements.get("t1").unwrap();
    assert_eq!(m.dimension, Dimension::Temperature);
    assert_eq!(m.unit, Unit::One);
    assert_eq!(m.timestamp, 100);
    assert!(m.value.is_none());
    assert_eq!(
        d.add_sensor(&"t1".to_string(), &sensor("brightness"), 200),
        Err("measurement entry for sensor already created".to_string())
    );
    assert_eq!(d.measurements.len(), 1);
    assert_eq!(d.measurements.get("t1").unwrap().timestamp, 100);
}

#[test]
fn add_switch_registers_onoff() {
    let mut d = Data::new();
    assert_eq!(d.add_switch(&"sw".to_string(), &switch(), 5), Ok(()));
    assert_eq!(d.measurements.get("sw").unwrap().dimension, Dimension::OnOff);
    assert!(d.add_sensor(&"sw".to_string(), &sensor("onoff"), 6).is_err());
    assert!(d.add_switch(&"sw".to_string(), &switch(), 6).is_err());
}

#[test]
fn get_mut_updates_in_place() {
    let mut d = Data::new();
    d.add_sensor(&"a".to_string(), &sensor("percent"), 1).unwrap();
    d.add_sensor(&"b".to_string(), &sensor("onoff"), 1).unwrap();
    {
        let m = d.get_mut(&"b".to_string()).unwrap();
        m.value = Some(Value::Switch(true));
        m.timestamp = 9;
    }
    assert!(d.get_mut(&"c".to_string()).is_none());
    assert_eq!(d.measurements.get("b").unwrap().value, Some(Value::Switch(true)));
    assert_eq!(d.measurements.get("b").unwrap().timestamp, 9);
    assert_eq!(d.measurements.get("a").unwrap().timestamp, 1);
    assert_eq!(d.measurements.key_at(1), "b");
}

#[test]
fn id_map_insert_replaces_in_place() {
    let mut m: IdMap<u32> = IdMap::new();
    assert_eq!(m.insert("x".to_string(), 1), None);
    assert_eq!(m.insert("y".to_string(), 2), None);
    assert_eq!(m.insert("x".to_string(), 3), Some(1));
    assert_eq!(m.len(), 2);
    assert_eq!(m.key_at(0), "x");
    assert_eq!(*m.value_at(0), 3);
    assert_eq!(m.get("y"), Some(&2));
    assert_eq!(m.get("z"), None);
    assert!(m.contains_key("x"));
    assert!(!m.contains_key("X"));
    assert_eq!(m.position("y"), Some(1));
}

#[test]
fn sensor_dimensions() {
    assert_eq!(sensor("brightness").get_dimension(), Dimension::Brightness);
    assert_eq!(sensor("temperature").get_dimension(), Dimension::Temperature);
    assert_eq!(sensor("onoff").get_dimension(), Dimension::OnOff);
    assert_eq!(sensor("percent").get_dimension(), Dimension::Percent);
    assert_eq!(sensor("Percent").get_dimension(), Dimension::Unspecified);
    assert_eq!(sensor("").get_dimension(), Dimension::Unspecified);
}

#[test]
fn default_config() {
    let c = knx_home::config::Config::default();
    assert_eq!(c.http_listen_address, "127.0.0.1:8080");
    assert!(c.knx_server.is_none());
    assert_eq!(c.knx_multicast_group, [0, 0, 0, 0]);
    assert_eq!(c.knx_multicast_interface, [0, 0, 0, 0]);
    assert_eq!(c.knx_multicast_port, 3086);
    assert!(c.room_list.is_empty());
    assert_eq!(c.rooms.len(), 0);
    assert_eq!(c.sensors.len(), 0);
    assert_eq!(c.actors.len(), 0);
    assert_eq!(c.switches.len(), 0);
}

#[test]
fn weather_starts_undefined() {
    let w = knx_home::sensors::Wetter::new();
    assert!(matches!(w.till, knx_home::sensors::Measurement::Undefined));
    assert!(matches!(w.flur_brightness, knx_home::sensors::Measurement::Undefined));
    assert_eq!(w.measurements.len(), 0);
}

#[test]
fn insert_then_lookup_law_values() {
    let mut m: IdMap<&str> = IdMap::new();
    m.insert("k".to_string(), "one");
    m.insert("other".to_string(), "two");
    m.insert("k".to_string(), "three");
    assert_eq!(m.get("k"), Some(&"three"));
    assert_eq!(m.get("other"), Some(&"two"));
}
