//! Parsing of Open Glider Network (OGN) APRS aircraft beacons.
//!
//! The parser extracts from a raw OGN APRS message the routing header
//! (callsign, protocol, q construct, receiver), the position block (time,
//! latitude, longitude, ground track, ground speed, altitude) and the OGN
//! beacon ID with the tracker metadata that its prefix byte encodes.
//! Numbers are held exactly as the message writes them, as
//! [`numbers::FloatLiteral`] values.
pub mod aprs_types;
pub mod bytes;
pub mod errors;
pub mod field_laws;
pub mod laws;
pub mod numbers;
pub mod parse;
pub mod text;

pub use aprs_types::{
    ICAOAddress, OGNAddressType, OGNAircraftType, OGNBeaconID, OGNIDPrefix, OgnAprsProtocol,
};
pub use parse::{parse_ogn_aprs_aircraft_beacon, AircraftBeacon};
