//! Home automation over KNX/IP: group addresses, telegram framing and
//! decoding, the sensor registry, the HTTP routing decisions and the
//! time schedule, each with its contract.

pub mod text;
pub mod table;
pub mod config;
pub mod data;
pub mod knx;
pub mod httpserver;
pub mod html;
pub mod scheduler;
pub mod sensors;
pub mod youless;
