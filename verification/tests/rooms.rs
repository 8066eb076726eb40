use knx_home::config::{actor, Config, Room, Sensor, Switch};
use knx_home::data::{Data, Value};
use knx_home::html::index_data;
use knx_home::httpserver::{check_rooms_listed, index_rooms, room_clock_times_in_range, template_data_for_room, CLOCK_LIMIT};

fn config() -> Config {
    let mut c = Config::default();
    c.room_list = vec!["kitchen".to_string(), "bath".to_string()];
    c.rooms.insert("bath".to_string(), Room { name: "Bath".to_string() });
    c.rooms.insert("kitchen".to_string(), Room { name: "Kitchen".to_string() });
    for (id, room, addr) in [("t1", "kitchen", "1/1/1"), ("t2", "bath", "1/1/2"), ("t3", "kitchen", "1/1/3")] {
        c.sensors.insert(
            id.to_string(),
            Sensor {
                dimension: "temperature".to_string(),
                name: format!("Sensor {}", id),
                room_id: room.to_string(),
                eibaddr: addr.to_string(),
            },
        );
    }
    c.actors.insert(
        "lamp".to_string(),
        actor {
            name: "Lamp".to_string(),
            room_id: "kitchen".to_string(),
            commands: vec!["on".to_string(), "off".to_string()],
            eibaddr: "0/0/5".to_string(),
        },
    );
    c.switches.insert(
        "fan".to_string(),
        Switch {
            name: "Fan".to_string(),
            room_id: "bath".to_string(),
            eibaddr_command: "0/1/6".to_string(),
            eibaddr_status: "0/1/7".to_string(),
            commands: vec!["on".to_string()],
        },
    );
    c
}

fn data(c: &Config) -> Data {
    let mut d = Data::new();
    d.add_sensor(&"t1".to_string(), c.sensors.get("t1").unwrap(), 10).unwrap();
    d.add_sensor(&"t3".to_string(), c.sensors.get("t3").unwrap(), 11).unwrap();
    let m = d.get_mut(&"t1".to_string()).unwrap();
    m.value = Some(Value::Float16 { negative: false, magnitude: 2150 });
    m.timestamp = 99;
    d
}

#[test]
fn room_template() {
    let c = config();
    let d = data(&c);
    let room = template_data_for_room(&"kitchen".to_string(), &c, &d).unwrap();
    assert_eq!(room.id, "kitchen");
    assert_eq!(room.name, "Kitchen");
    assert_eq!(room.sensors.len(), 2);
    assert_eq!(room.sensors[0].id, "t1");
    assert_eq!(room.sensors[0].name, "Sensor t1");
    assert_eq!(room.sensors[0].dimension, "temperature");
    assert_eq!(room.sensors[0].measurement, Some(Value::Float16 { negative: false, magnitude: 2150 }));
    assert_eq!(room.sensors[0].taken, Some(99));
    assert_eq!(room.sensors[0].timestamp.len(), 8);
    assert_eq!(room.sensors[0].timestamp.matches(':').count(), 2);
    // registered, but no value yet
    assert_eq!(room.sensors[1].id, "t3");
    assert_eq!(room.sensors[1].measurement, None);
    assert_eq!(room.sensors[1].taken, None);
    assert_eq!(room.sensors[1].timestamp, "");
    assert_eq!(room.actors.len(), 1);
    assert_eq!(room.actors[0].id, "lamp");
    assert_eq!(room.actors[0].status, "");
    assert_eq!(room.actors[0].commands, vec!["on".to_string(), "off".to_string()]);
    assert!(room.switches.is_empty());
}

#[test]
fn room_template_without_store_entries() {
    let c = config();
    let d = Data::new();
    let room = template_data_for_room(&"bath".to_string(), &c, &d).unwrap();
    assert_eq!(room.sensors.len(), 1);
    assert_eq!(room.sensors[0].id, "t2");
    assert_eq!(room.sensors[0].measurement, None);
    assert_eq!(room.switches.len(), 1);
    assert_eq!(room.switches[0].id, "fan");
    assert_eq!(room.switches[0].name, "Fan");
    assert!(room.actors.is_empty());
}

#[test]
fn overview_follows_room_list() {
    let c = config();
    let d = data(&c);
    assert!(check_rooms_listed(&c));
    let rooms = index_rooms(&c, &d);
    assert_eq!(rooms.len(), 2);
    assert_eq!(rooms[0].id, "kitchen");
    assert_eq!(rooms[1].id, "bath");
    let mut c2 = config();
    c2.room_list.push("attic".to_string());
    assert!(!check_rooms_listed(&c2));
}

#[test]
fn index_page_follows_room_table() {
    let c = config();
    let page = index_data(&c);
    assert_eq!(page.title, "");
    assert_eq!(page.rooms.len(), 2);
    assert_eq!(page.rooms[0].name, "Bath");
    assert_eq!(page.rooms[0].floor, "?");
    assert!(page.rooms[0].actions.is_empty());
    assert_eq!(page.rooms[0].sensors.len(), 1);
    assert_eq!(page.rooms[0].sensors[0].id, "t2");
    assert_eq!(page.rooms[1].name, "Kitchen");
    assert_eq!(page.rooms[1].sensors.len(), 2);
    assert_eq!(page.rooms[1].sensors[1].name, "Sensor t3");
}

#[test]
fn clock_times_range_check() {
    let c = config();
    let kitchen = "kitchen".to_string();
    let bath = "bath".to_string();
    let mut d = data(&c);
    assert!(room_clock_times_in_range(&kitchen, &c, &d));
    assert!(room_clock_times_in_range(&kitchen, &c, &Data::new()));
    // t3 has no value yet: its time is never shown
    d.get_mut(&"t3".to_string()).unwrap().timestamp = CLOCK_LIMIT + 1;
    assert!(room_clock_times_in_range(&kitchen, &c, &d));
    // t1 has a value
    d.get_mut(&"t1".to_string()).unwrap().timestamp = CLOCK_LIMIT;
    assert!(room_clock_times_in_range(&kitchen, &c, &d));
    let room = template_data_for_room(&kitchen, &c, &d).unwrap();
    assert_eq!(room.sensors[0].timestamp.len(), 8);
    d.get_mut(&"t1".to_string()).unwrap().timestamp = CLOCK_LIMIT + 1;
    assert!(!room_clock_times_in_range(&kitchen, &c, &d));
    // another room is not concerned
    assert!(room_clock_times_in_range(&bath, &c, &d));
}

#[test]
fn clock_text_form() {
    let c = config();
    let d = data(&c);
    let room = template_data_for_room(&"kitchen".to_string(), &c, &d).unwrap();
    let t: Vec<char> = room.sensors[0].timestamp.chars().collect();
    assert_eq!(t.len(), 8);
    assert_eq!(t[2], ':');
    assert_eq!(t[5], ':');
    for k in [0, 1, 3, 4, 6, 7] {
        assert!(t[k].is_ascii_digit());
    }
}
