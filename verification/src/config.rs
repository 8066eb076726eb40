//! The installation's configuration: rooms, sensors, actors, switches and
//! the KNX/IP endpoints.

use vstd::prelude::*;
use vstd::string::*;
use crate::data::Dimension;
use crate::table::IdMap;
use crate::text::{dec, push_char, push_dec_u8, str_eq};

verus! {

/// A KNX group address `main/middle/sub`.
#[derive(Debug, Copy, Clone, PartialEq, Eq, Hash, Structural)]
pub struct EibAddr(pub u8, pub u8, pub u8);

/// The text of a group address: the three parts in decimal, separated by `/`.
pub open spec fn eib_addr_text(a: EibAddr) -> Seq<char> {
    dec(a.0 as nat) + seq!['/'] + dec(a.1 as nat) + seq!['/'] + dec(a.2 as nat)
}

impl EibAddr {
    /// The address written `x/y/z`.
    pub fn to_string(&self) -> (s: String)
        ensures
            s@ == eib_addr_text(*self),
    {
        let mut s = String::new();
        push_dec_u8(&mut s, self.0);
        push_char(&mut s, '/');
        push_dec_u8(&mut s, self.1);
        push_char(&mut s, '/');
        push_dec_u8(&mut s, self.2);
        assert(s@ =~= eib_addr_text(*self));
        s
    }
}

/// A room.
#[derive(Debug, Clone)]
pub struct Room {
    pub name: String,
}

/// An actor: a device that takes commands at one group address.
#[allow(non_camel_case_types)]
#[derive(Debug, Clone)]
pub struct actor {
    pub name: String,
    pub room_id: String,
    pub commands: Vec<String>,
    pub eibaddr: String,
}

/// A sensor that reports to one group address.
#[derive(Debug, Clone)]
pub struct Sensor {
    pub dimension: String,
    pub name: String,
    pub room_id: String,
    pub eibaddr: String,
}

/// A switch: commands go to one group address, its state comes from another.
#[derive(Debug, Clone)]
pub struct Switch {
    pub name: String,
    pub room_id: String,
    pub eibaddr_command: String,
    pub eibaddr_status: String,
    pub commands: Vec<String>,
}

/// The dimension named by a sensor's `dimension` text.
pub open spec fn dimension_named(s: Seq<char>) -> Dimension {
    if s == "brightness"@ {
        Dimension::Brightness
    } else if s == "temperature"@ {
        Dimension::Temperature
    } else if s == "onoff"@ {
        Dimension::OnOff
    } else if s == "percent"@ {
        Dimension::Percent
    } else {
        Dimension::Unspecified
    }
}

impl Sensor {
    /// The sensor's dimension; an unknown name gives `Dimension::Unspecified`.
    pub fn get_dimension(&self) -> (d: Dimension)
        ensures
            d == dimension_named(self.dimension@),
    {
        let s = self.dimension.as_str();
        if str_eq(s, "brightness") {
            Dimension::Brightness
        } else if str_eq(s, "temperature") {
            Dimension::Temperature
        } else if str_eq(s, "onoff") {
            Dimension::OnOff
        } else if str_eq(s, "percent") {
            Dimension::Percent
        } else {
            Dimension::Unspecified
        }
    }
}

/// The configuration. The multicast group and interface are IPv4 addresses,
/// octets in network order.
pub struct Config {
    pub http_listen_address: String,
    pub knx_server: Option<String>,
    pub knx_multicast_group: [u8; 4],
    pub knx_multicast_interface: [u8; 4],
    pub knx_multicast_port: u16,
    pub room_list: Vec<String>,
    pub rooms: IdMap<Room>,
    pub sensors: IdMap<Sensor>,
    pub actors: IdMap<actor>,
    pub switches: IdMap<Switch>,
}

impl Config {
    /// Every table of the configuration is well formed.
    pub open spec fn wf(&self) -> bool {
        &&& self.rooms.wf()
        &&& self.sensors.wf()
        &&& self.actors.wf()
        &&& self.switches.wf()
    }

    /// The configuration used when none is given: HTTP on 127.0.0.1:8080,
    /// no KNX server, unspecified multicast addresses, port 3086, and no
    /// rooms or devices.
    pub fn default() -> (c: Config)
        ensures
            c.wf(),
            c.http_listen_address@ == "127.0.0.1:8080"@,
            c.knx_server.is_none(),
            c.knx_multicast_group@ == seq![0u8, 0u8, 0u8, 0u8],
            c.knx_multicast_interface@ == seq![0u8, 0u8, 0u8, 0u8],
            c.knx_multicast_port == 3086,
            c.room_list@.len() == 0,
            c.rooms@.len() == 0,
            c.sensors@.len() == 0,
            c.actors@.len() == 0,
            c.switches@.len() == 0,
    {
        let c = Config {
            http_listen_address: String::from_str("127.0.0.1:8080"),
            knx_server: None,
            knx_multicast_group: [0u8, 0u8, 0u8, 0u8],
            knx_multicast_interface: [0u8, 0u8, 0u8, 0u8],
            knx_multicast_port: 3086,
            room_list: Vec::new(),
            rooms: IdMap::new(),
            sensors: IdMap::new(),
            actors: IdMap::new(),
            switches: IdMap::new(),
        };
        assert(c.knx_multicast_group@ =~= seq![0u8, 0u8, 0u8, 0u8]);
        assert(c.knx_multicast_interface@ =~= seq![0u8, 0u8, 0u8, 0u8]);
        c
    }
}

} // verus!
