//! Decode Mode-S / ADS-B transponder frames into typed messages.
//!
//! Supported downlink formats (DF):
//!
//! - **DF 5**: surveillance identity (squawk code)
//! - **DF 17/18**: extended squitter (ADS-B)
//!   - **TC 1-4**: aircraft identification and category
//!   - **TC 9-18**: airborne position
//!   - **TC 19**: airborne velocity (ground speed subtype)
//!
//! Everything is integer arithmetic: raw field values, and angles held as
//! exact fractions of a turn.

pub mod avr;
pub mod bits;
pub mod cpr;
pub mod crc;
pub mod crc_laws;
pub mod decode;
pub mod parser;
pub mod text;
pub mod types;

pub use avr::{parse_avr, parse_avr_frame};
pub use bits::{bit_at, bits_value, BitCursor};
pub use cpr::{cpr_nl, get_lat_lon, get_position, Angle, GeoModel, GeoPosition, Turn};
pub use crc::{get_crc_remainder, CrcError};
pub use decode::{decode_callsign, decode_id_13_field};
pub use parser::{
    parse_adsb_message, parse_adsb_message_kind, parse_airborne_position,
    parse_airborne_velocity, parse_aircraft_identification, parse_altitude, parse_binary,
    parse_coordinate, parse_cpr_parity, parse_icao_address, parse_message, parse_mode_s_message,
    parse_mode_s_message_kind, parse_sign, parse_surveillance_identity, parse_unknown,
    parse_velocity, parse_vertical_rate, parse_vertical_rate_source,
};
pub use types::{
    ADSBMessageKind, AdsbKindModel, CPRFrame, ErrorKind, ICAOAddress, Message, MessageKind,
    MessageKindModel, MessageModel, ModeSMessageKind, ParseSquawkError, Parity, ParserError,
    Position, Squawk, VerticalRateSource,
};
