//! The values that a decode hands to its caller.

use vstd::prelude::*;
use vstd::string::StringSliceAdditionalSpecFns;
use crate::text::{hex_byte, hex_digit_value, hex_value, push_hex_byte};

verus! {

/// Why a decode failed.
#[derive(Debug, Clone, Copy, PartialEq, Eq, Structural)]
pub enum ErrorKind {
    /// Fewer bits or bytes remain than a field requires.
    Truncated,
    /// A fixed bit pattern was expected and something else was found.
    UnexpectedValue,
    /// A field is outside the range that the grammar accepts at that point.
    ConstraintViolation,
    /// A checked altitude or vertical-rate computation left its range.
    ArithmeticOverflow,
    /// Fewer than three bytes were handed to the CRC engine.
    CrcInputTooShort,
    /// The text wrapper around a frame is malformed.
    FramingError,
}

/// Error type used to convey parsing errors.
#[derive(Debug, Clone, Copy, PartialEq, Eq, Structural)]
pub struct ParserError {
    /// The class of the failure.
    pub kind: ErrorKind,
}

impl ParserError {
    /// An error of the given kind.
    pub fn new(kind: ErrorKind) -> (e: ParserError)
        ensures
            e.kind == kind,
    {
        ParserError { kind }
    }

    /// The sentence that describes an error of each kind.
    pub open spec fn description(kind: ErrorKind) -> Seq<char> {
        match kind {
            ErrorKind::Truncated => "frame ends before the end of a field"@,
            ErrorKind::UnexpectedValue => "field does not hold the expected bit pattern"@,
            ErrorKind::ConstraintViolation => "field is outside the supported range"@,
            ErrorKind::ArithmeticOverflow => "decoded value is outside the representable range"@,
            ErrorKind::CrcInputTooShort => "length in bytes must be >= 3 to calculate CRC"@,
            ErrorKind::FramingError => "text is not a frame in AVR format"@,
        }
    }

    /// A sentence that describes the error.
    pub fn to_string(&self) -> (s: String)
        ensures
            s@ == Self::description(self.kind),
    {
        match self.kind {
            ErrorKind::Truncated => "frame ends before the end of a field".to_owned(),
            ErrorKind::UnexpectedValue => "field does not hold the expected bit pattern".to_owned(),
            ErrorKind::ConstraintViolation => "field is outside the supported range".to_owned(),
            ErrorKind::ArithmeticOverflow => {
                "decoded value is outside the representable range".to_owned()
            },
            ErrorKind::CrcInputTooShort => {
                "length in bytes must be >= 3 to calculate CRC".to_owned()
            },
            ErrorKind::FramingError => "text is not a frame in AVR format".to_owned(),
        }
    }
}

/// Unique 24-bit ICAO address assigned to an aircraft upon national registration.
#[derive(Debug, Clone, Copy, PartialEq, Eq, Structural, Hash)]
pub struct ICAOAddress(pub u8, pub u8, pub u8);

impl ICAOAddress {
    /// The address as six upper-case hexadecimal digits.
    pub fn to_string(&self) -> (s: String)
        ensures
            s@ == hex_byte(self.0) + hex_byte(self.1) + hex_byte(self.2),
    {
        let mut s = String::new();
        push_hex_byte(&mut s, self.0);
        push_hex_byte(&mut s, self.1);
        push_hex_byte(&mut s, self.2);
        assert(s@ =~= hex_byte(self.0) + hex_byte(self.1) + hex_byte(self.2));
        s
    }
}

/// 16 bit transponder squawk code.
#[derive(Debug, Clone, Copy, PartialEq, Eq, Structural, Hash)]
pub struct Squawk(pub u8, pub u8);

/// A text that does not spell a squawk.
#[derive(Debug, Clone, Copy, PartialEq, Eq, Structural)]
pub struct ParseSquawkError;

/// The number that the hexadecimal digits of `digits` spell from index `i`
/// on, continuing from `acc`: none where a byte is no hexadecimal digit, or
/// where the number leaves 16 bits.
pub open spec fn hex_number_from(digits: Seq<u8>, i: int, acc: nat) -> Option<nat>
    decreases digits.len() - i,
{
    if i < 0 || i >= digits.len() {
        Some(acc)
    } else {
        match hex_value(digits[i]) {
            None => None,
            Some(d) => if 16 * acc + d > 0xffff {
                None
            } else {
                hex_number_from(digits, i + 1, 16 * acc + (d as nat))
            },
        }
    }
}

/// The 16-bit number that a text spells in hexadecimal: an optional `+`, then
/// at least one digit, upper or lower case.
pub open spec fn hex_u16(text: Seq<u8>) -> Option<nat> {
    let first: int = if text.len() > 0 && text[0] == 0x2B {
        1
    } else {
        0
    };
    if text.len() <= first {
        None
    } else {
        hex_number_from(text, first, 0)
    }
}

impl Squawk {
    /// The squawk whose two bytes are the high and the low byte of `value`.
    pub open spec fn of(value: u16) -> Squawk {
        Squawk((value / 256) as u8, (value % 256) as u8)
    }

    /// Reads a squawk from its text: the four octal digits of the code, read
    /// as one hexadecimal number.
    pub fn parse(value: &str) -> (r: Option<Squawk>)
        ensures
            match r {
                Some(s) => hex_u16(value.spec_bytes()) matches Some(v) && s == Squawk::of(v as u16),
                None => hex_u16(value.spec_bytes()).is_none(),
            },
    {
        let text = value.as_bytes();
        let len: usize = text.len();
        let first: usize = if len > 0 && text[0] == 0x2B { 1 } else { 0 };
        if len <= first {
            return None;
        }
        let mut acc: u32 = 0;
        let mut i: usize = first;
        while i < len
            invariant
                len == text@.len(),
                text@ == value.spec_bytes(),
                first == (if len > 0 && text@[0] == 0x2B { 1int } else { 0int }),
                first < len,
                first <= i <= len,
                acc <= 0xffff,
                hex_number_from(text@, first as int, 0) == hex_number_from(
                    text@,
                    i as int,
                    acc as nat,
                ),
            decreases len - i,
        {
            match hex_digit_value(text[i]) {
                None => { return None; },
                Some(d) => {
                    if 16 * acc + d as u32 > 0xffff {
                        return None;
                    }
                    acc = 16 * acc + d as u32;
                },
            }
            i = i + 1;
        }
        Some(Squawk::from(acc as u16))
    }

    /// The squawk as four upper-case hexadecimal digits, which read as the
    /// four octal digits of the code.
    pub fn to_string(&self) -> (s: String)
        ensures
            s@ == hex_byte(self.0) + hex_byte(self.1),
    {
        let mut s = String::new();
        push_hex_byte(&mut s, self.0);
        push_hex_byte(&mut s, self.1);
        assert(s@ =~= hex_byte(self.0) + hex_byte(self.1));
        s
    }
}

impl std::str::FromStr for Squawk {
    type Err = ParseSquawkError;

    fn from_str(value: &str) -> (r: Result<Self, Self::Err>)
        ensures
            match r {
                Ok(s) => hex_u16(value.spec_bytes()) matches Some(v) && s == Squawk::of(v as u16),
                Err(_) => hex_u16(value.spec_bytes()).is_none(),
            },
    {
        match Squawk::parse(value) {
            Some(s) => Ok(s),
            None => Err(ParseSquawkError),
        }
    }
}

impl From<u16> for Squawk {
    fn from(value: u16) -> (s: Squawk) {
        Squawk((value / 256) as u8, (value % 256) as u8)
    }
}

impl vstd::std_specs::convert::FromSpecImpl<u16> for Squawk {
    open spec fn obeys_from_spec() -> bool {
        true
    }

    open spec fn from_spec(value: u16) -> Squawk {
        Squawk::of(value)
    }
}

/// One coordinate pair of a compact position report, in raw CPR units: each
/// is a 17-bit fraction of a zone.
#[derive(Debug, Clone, Copy, PartialEq, Eq, Structural)]
pub struct Position {
    pub latitude: u32,
    pub longitude: u32,
}

/// Aircraft position is broadcast as a set of alternating odd and even frames
/// which encode position information using Compact Position Reporting (CPR).
#[derive(Debug, Clone, Copy, PartialEq, Eq, Structural)]
pub struct CPRFrame {
    /// Aircraft position in CPR format
    pub position: Position,
    /// Frame parity
    pub parity: Parity,
}

impl CPRFrame {
    /// Both coordinates are 17-bit quantities, as every decoded frame's are.
    pub open spec fn wf(&self) -> bool {
        self.position.latitude < 131072 && self.position.longitude < 131072
    }
}

/// Frame parity.
#[derive(Debug, Clone, Copy, PartialEq, Eq, Structural)]
pub enum Parity {
    Even,
    Odd,
}

/// Source for vertical rate information.
#[derive(Debug, Clone, Copy, PartialEq, Eq, Structural)]
pub enum VerticalRateSource {
    /// Barometric pressure altitude change rate
    BarometricPressureAltitude,
    /// Geometric altitude change rate
    GeometricAltitude,
}

/// ADS-B/Mode-S message.
#[derive(Debug, Clone, PartialEq)]
pub struct Message {
    /// Downlink Format (DF)
    pub downlink_format: u8,
    /// Kind of message
    pub kind: MessageKind,
}

/// Kind of ADS-B/Mode-S message.
#[allow(inconsistent_fields)]
#[derive(Debug, Clone, PartialEq)]
pub enum MessageKind {
    /// ADSB message (DF 17/18)
    ADSBMessage { capability: u8, icao_address: ICAOAddress, type_code: u8, kind: ADSBMessageKind },
    /// Mode-S message (DF 5)
    ModeSMessage { icao_address: ICAOAddress, kind: ModeSMessageKind },
    /// Unsupported message
    Unknown,
}

/// Kind of Mode-S message.
#[derive(Debug, Clone, Copy, PartialEq, Eq, Structural)]
pub enum ModeSMessageKind {
    /// Surveillance identity reply (DF 5)
    SurveillanceIdentity { squawk: Squawk },
}

/// Kind of ADSB message.
#[derive(Debug, Clone, PartialEq)]
pub enum ADSBMessageKind {
    /// Aicraft identification and category message (TC 1-4)
    AircraftIdentification {
        /// Emitter category used to determine the type of aircraft
        emitter_category: u8,
        /// Aircraft callsign
        callsign: String,
    },
    /// Airborne position message (TC 9-18)
    AirbornePosition {
        /// Altitude in feet
        altitude: u16,
        /// Odd or even frame encoding position information in CPR format
        cpr_frame: CPRFrame,
    },
    /// Airborne velocity message (TC 19)
    AirborneVelocity {
        /// Velocity towards the east in knots, negative towards the west
        east_west_velocity: i16,
        /// Velocity towards the north in knots, negative towards the south
        north_south_velocity: i16,
        /// Vertical rate in feet per minute, positive values indicate an aircraft is climbing and
        /// negative values indicate it is descending
        vertical_rate: i16,
        /// Source for vertical rate information
        vertical_rate_source: VerticalRateSource,
    },
}

/// What an [`ADSBMessageKind`] holds, the callsign as a sequence of characters.
pub enum AdsbKindModel {
    AircraftIdentification { emitter_category: u8, callsign: Seq<char> },
    AirbornePosition { altitude: u16, cpr_frame: CPRFrame },
    AirborneVelocity {
        east_west_velocity: i16,
        north_south_velocity: i16,
        vertical_rate: i16,
        vertical_rate_source: VerticalRateSource,
    },
}

/// What a [`MessageKind`] holds.
#[allow(inconsistent_fields)]
pub enum MessageKindModel {
    ADSBMessage { capability: u8, icao_address: ICAOAddress, type_code: u8, kind: AdsbKindModel },
    ModeSMessage { icao_address: ICAOAddress, kind: ModeSMessageKind },
    Unknown,
}

/// What a [`Message`] holds.
pub struct MessageModel {
    pub downlink_format: u8,
    pub kind: MessageKindModel,
}

impl MessageModel {
    /// What holds of every message that a decode returns: the downlink format
    /// is a 5-bit number and goes with the kind of the message; in an
    /// extended squitter the type code goes with the kind of the payload, and
    /// every field stays in the range of its bits.
    pub open spec fn wf(self) -> bool {
        &&& self.downlink_format < 32
        &&& match self.kind {
            MessageKindModel::ADSBMessage { capability, icao_address, type_code, kind } => {
                &&& self.downlink_format == 17 || self.downlink_format == 18
                &&& capability < 8
                &&& match kind {
                    AdsbKindModel::AircraftIdentification { emitter_category, callsign } => {
                        &&& 1 <= type_code <= 4
                        &&& emitter_category < 8
                        &&& callsign.len() == 8
                    },
                    AdsbKindModel::AirbornePosition { altitude, cpr_frame } => {
                        &&& 9 <= type_code <= 18
                        &&& altitude <= 64535
                        &&& cpr_frame.wf()
                    },
                    AdsbKindModel::AirborneVelocity {
                        east_west_velocity,
                        north_south_velocity,
                        vertical_rate,
                        vertical_rate_source,
                    } => {
                        &&& type_code == 19
                        &&& -1022 <= east_west_velocity <= 1022
                        &&& -1022 <= north_south_velocity <= 1022
                        &&& -32640 <= vertical_rate <= 32640
                        &&& vertical_rate % 64 == 0
                    },
                }
            },
            MessageKindModel::ModeSMessage { icao_address, kind } => self.downlink_format == 5,
            MessageKindModel::Unknown => {
                &&& self.downlink_format != 5
                &&& self.downlink_format != 17
                &&& self.downlink_format != 18
            },
        }
    }
}

impl View for ADSBMessageKind {
    type V = AdsbKindModel;

    open spec fn view(&self) -> AdsbKindModel {
        match *self {
            ADSBMessageKind::AircraftIdentification { emitter_category, callsign } => {
                AdsbKindModel::AircraftIdentification { emitter_category, callsign: callsign@ }
            },
            ADSBMessageKind::AirbornePosition { altitude, cpr_frame } => {
                AdsbKindModel::AirbornePosition { altitude, cpr_frame }
            },
            ADSBMessageKind::AirborneVelocity {
                east_west_velocity,
                north_south_velocity,
                vertical_rate,
                vertical_rate_source,
            } => AdsbKindModel::AirborneVelocity {
                east_west_velocity,
                north_south_velocity,
                vertical_rate,
                vertical_rate_source,
            },
        }
    }
}

impl View for MessageKind {
    type V = MessageKindModel;

    open spec fn view(&self) -> MessageKindModel {
        match *self {
            MessageKind::ADSBMessage { capability, icao_address, type_code, kind } => {
                MessageKindModel::ADSBMessage { capability, icao_address, type_code, kind: kind@ }
            },
            MessageKind::ModeSMessage { icao_address, kind } => MessageKindModel::ModeSMessage {
                icao_address,
                kind,
            },
            MessageKind::Unknown => MessageKindModel::Unknown,
        }
    }
}

impl View for Message {
    type V = MessageModel;

    open spec fn view(&self) -> MessageModel {
        MessageModel { downlink_format: self.downlink_format, kind: self.kind@ }
    }
}

} // verus!
