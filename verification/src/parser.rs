//! The message grammar: downlink format and type code select the fields that
//! are cut out of a frame.

use vstd::prelude::*;
use vstd::arithmetic::power2::lemma2_to64;
use crate::bits::{bits_value, lemma_bits_value_bound, BitCursor};
use crate::crc::{crc_remainder, get_crc_remainder};
use crate::decode::{
    altitude_feet, callsign_of, decode_altitude, decode_callsign, decode_id_13_field,
    decode_velocity, decode_vertical_rate, gillham_permute, signed_velocity, vertical_rate_fpm,
};
use crate::types::{
    ADSBMessageKind, AdsbKindModel, CPRFrame, ErrorKind, ICAOAddress, Message, MessageKind,
    MessageKindModel, MessageModel, ModeSMessageKind, Parity, ParserError, Position, Squawk,
    VerticalRateSource,
};

verus! {

/// Lowest and highest type code of an aircraft identification message.
pub const TC_IDENTIFICATION_FIRST: u32 = 1;

pub const TC_IDENTIFICATION_LAST: u32 = 4;

/// Lowest and highest type code of an airborne position message.
pub const TC_POSITION_FIRST: u32 = 9;

pub const TC_POSITION_LAST: u32 = 18;

/// Type code of an airborne velocity message, and the one subtype that is
/// decoded: velocity over ground.
pub const TC_VELOCITY: u32 = 19;

pub const VELOCITY_SUBTYPE_GROUND_SPEED: u32 = 1;

/// Downlink format of a surveillance identity reply.
pub const DF_SURVEILLANCE_IDENTITY: u32 = 5;

/// Downlink formats of an extended squitter: sent by a Mode-S transponder,
/// and sent by other equipment.
pub const DF_EXTENDED_SQUITTER: u32 = 17;

pub const DF_EXTENDED_SQUITTER_NON_TRANSPONDER: u32 = 18;

/// Number of bits of `data` from bit `at` to the end.
pub open spec fn bits_left(data: Seq<u8>, at: int) -> int {
    8 * data.len() - at
}

/// What a sub-grammar makes of `data` from bit `at` on: a value and the bit
/// behind it, or the reason why there is none.
pub type Parsed<T> = Result<(T, int), ErrorKind>;

/// `r` is what the grammar's outcome `model` demands of a read that started
/// at `input`, for a value that is its own model.
pub open spec fn conforms<'a, T>(
    input: BitCursor<'a>,
    r: Result<(T, BitCursor<'a>), ParserError>,
    model: Parsed<T>,
) -> bool {
    match r {
        Ok((v, next)) => {
            &&& model == Ok::<(T, int), ErrorKind>((v, next.position()))
            &&& next.bytes() == input.bytes()
        },
        Err(e) => model == Err::<(T, int), ErrorKind>(e.kind),
    }
}

/// A single bit that chooses between two values.
pub open spec fn flag(data: Seq<u8>, at: int) -> Parsed<bool> {
    if bits_left(data, at) < 1 {
        Err(ErrorKind::Truncated)
    } else {
        Ok((bits_value(data, at, 1) == 1, at + 1))
    }
}

fn parse_flag<'a>(input: BitCursor<'a>) -> (r: Result<(bool, BitCursor<'a>), ParserError>)
    ensures
        conforms(input, r, flag(input.bytes(), input.position())),
{
    match input.take(1) {
        Ok((v, next)) => Ok((v == 1, next)),
        Err(e) => Err(e),
    }
}

/// The parity of a position report: 0 is even, 1 is odd.
pub open spec fn cpr_parity(data: Seq<u8>, at: int) -> Parsed<Parity> {
    match flag(data, at) {
        Ok((odd, end)) => Ok((if odd { Parity::Odd } else { Parity::Even }, end)),
        Err(e) => Err(e),
    }
}

/// Reads the parity bit of a position report.
pub fn parse_cpr_parity<'a>(input: BitCursor<'a>) -> (r: Result<
    (Parity, BitCursor<'a>),
    ParserError,
>)
    ensures
        conforms(input, r, cpr_parity(input.bytes(), input.position())),
{
    match parse_flag(input) {
        Ok((odd, next)) => Ok((if odd { Parity::Odd } else { Parity::Even }, next)),
        Err(e) => Err(e),
    }
}

/// The source of a vertical rate: 0 is barometric, 1 is geometric.
pub open spec fn vertical_rate_source(data: Seq<u8>, at: int) -> Parsed<VerticalRateSource> {
    match flag(data, at) {
        Ok((geometric, end)) => Ok(
            (
                if geometric {
                    VerticalRateSource::GeometricAltitude
                } else {
                    VerticalRateSource::BarometricPressureAltitude
                },
                end,
            ),
        ),
        Err(e) => Err(e),
    }
}

/// Reads the source bit of a vertical rate.
pub fn parse_vertical_rate_source<'a>(input: BitCursor<'a>) -> (r: Result<
    (VerticalRateSource, BitCursor<'a>),
    ParserError,
>)
    ensures
        conforms(input, r, vertical_rate_source(input.bytes(), input.position())),
{
    match parse_flag(input) {
        Ok((geometric, next)) => Ok(
            (
                if geometric {
                    VerticalRateSource::GeometricAltitude
                } else {
                    VerticalRateSource::BarometricPressureAltitude
                },
                next,
            ),
        ),
        Err(e) => Err(e),
    }
}

/// A sign bit as a factor: 0 is +1, 1 is -1.
pub open spec fn sign(data: Seq<u8>, at: int) -> Parsed<i16> {
    match flag(data, at) {
        Ok((negative, end)) => Ok((if negative { -1i16 } else { 1i16 }, end)),
        Err(e) => Err(e),
    }
}

/// Reads a sign bit.
pub fn parse_sign<'a>(input: BitCursor<'a>) -> (r: Result<(i16, BitCursor<'a>), ParserError>)
    ensures
        conforms(input, r, sign(input.bytes(), input.position())),
{
    match parse_flag(input) {
        Ok((negative, next)) => Ok((if negative { -1 } else { 1 }, next)),
        Err(e) => Err(e),
    }
}

/// Reads a 17-bit CPR coordinate.
pub fn parse_coordinate<'a>(input: BitCursor<'a>) -> (r: Result<(u32, BitCursor<'a>), ParserError>)
    ensures
        match r {
            Ok((v, next)) => {
                &&& input.remaining() >= 17
                &&& v == bits_value(input.bytes(), input.position(), 17)
                &&& v < 131072
                &&& input.moved_to(next, 17)
            },
            Err(e) => input.remaining() < 17 && e.kind == ErrorKind::Truncated,
        },
{
    proof {
        lemma2_to64();
    }
    input.take(17)
}

/// Reads the 10-bit magnitude of a velocity component.
pub fn parse_velocity<'a>(input: BitCursor<'a>) -> (r: Result<(u16, BitCursor<'a>), ParserError>)
    ensures
        match r {
            Ok((v, next)) => {
                &&& input.remaining() >= 10
                &&& v == bits_value(input.bytes(), input.position(), 10)
                &&& v < 1024
                &&& input.moved_to(next, 10)
            },
            Err(e) => input.remaining() < 10 && e.kind == ErrorKind::Truncated,
        },
{
    proof {
        lemma2_to64();
    }
    match input.take(10) {
        Ok((v, next)) => Ok((v as u16, next)),
        Err(e) => Err(e),
    }
}

/// Reads the 9-bit magnitude of a vertical rate.
pub fn parse_vertical_rate<'a>(input: BitCursor<'a>) -> (r: Result<
    (u16, BitCursor<'a>),
    ParserError,
>)
    ensures
        match r {
            Ok((v, next)) => {
                &&& input.remaining() >= 9
                &&& v == bits_value(input.bytes(), input.position(), 9)
                &&& v < 512
                &&& input.moved_to(next, 9)
            },
            Err(e) => input.remaining() < 9 && e.kind == ErrorKind::Truncated,
        },
{
    proof {
        lemma2_to64();
    }
    match input.take(9) {
        Ok((v, next)) => Ok((v as u16, next)),
        Err(e) => Err(e),
    }
}

/// As [`conforms`], for a value that the grammar describes by its view.
pub open spec fn conforms_view<'a, T: View>(
    input: BitCursor<'a>,
    r: Result<(T, BitCursor<'a>), ParserError>,
    model: Parsed<T::V>,
) -> bool {
    match r {
        Ok((v, next)) => {
            &&& model == Ok::<(T::V, int), ErrorKind>((v@, next.position()))
            &&& next.bytes() == input.bytes()
        },
        Err(e) => model == Err::<(T::V, int), ErrorKind>(e.kind),
    }
}

/// The eight 6-bit character codes of a callsign that starts at bit `at`.
pub open spec fn callsign_codes(data: Seq<u8>, at: int) -> Seq<u8> {
    Seq::new(8, |i: int| bits_value(data, at + 6 * i, 6) as u8)
}

/// Aircraft identification: type code (5 bits, 1 to 4), emitter category
/// (3 bits), eight character codes of 6 bits each.
pub open spec fn aircraft_identification(data: Seq<u8>, at: int) -> Parsed<AdsbKindModel> {
    let type_code = bits_value(data, at, 5);
    if bits_left(data, at) < 5 {
        Err(ErrorKind::Truncated)
    } else if !(TC_IDENTIFICATION_FIRST <= type_code <= TC_IDENTIFICATION_LAST) {
        Err(ErrorKind::ConstraintViolation)
    } else if bits_left(data, at) < 56 {
        Err(ErrorKind::Truncated)
    } else {
        Ok(
            (
                AdsbKindModel::AircraftIdentification {
                    emitter_category: bits_value(data, at + 5, 3) as u8,
                    callsign: callsign_of(callsign_codes(data, at + 8)),
                },
                at + 56,
            ),
        )
    }
}

/// Reads an aircraft identification message.
pub fn parse_aircraft_identification<'a>(input: BitCursor<'a>) -> (r: Result<
    (ADSBMessageKind, BitCursor<'a>),
    ParserError,
>)
    ensures
        conforms_view(input, r, aircraft_identification(input.bytes(), input.position())),
{
    proof {
        lemma2_to64();
        lemma_bits_value_bound(input.bytes(), input.position(), 5);
    }
    let in_range = |tc: u32| -> (ok: bool)
        ensures
            ok == (TC_IDENTIFICATION_FIRST <= tc <= TC_IDENTIFICATION_LAST),
        { TC_IDENTIFICATION_FIRST <= tc && tc <= TC_IDENTIFICATION_LAST };
    let (_, input1) = match input.verify(5, in_range) {
        Ok(x) => x,
        Err(e) => { return Err(e); },
    };
    let (emitter_category, input2) = match input1.take(3) {
        Ok(x) => x,
        Err(e) => { return Err(e); },
    };
    let mut codes: Vec<u8> = Vec::new();
    let mut cursor = input2;
    let mut i: usize = 0;
    while i < 8
        invariant
            i <= 8,
            cursor.bytes() == input2.bytes(),
            cursor.position() == input2.position() + 6 * i,
            codes@.len() == i,
            forall|j: int|
                0 <= j < i ==> #[trigger] codes@[j] == bits_value(
                    input2.bytes(),
                    input2.position() + 6 * j,
                    6,
                ) && codes@[j] < 64,
            input2.bytes() == input.bytes(),
            input2.position() == input.position() + 8,
            input.remaining() >= 8 + 6 * i,
            TC_IDENTIFICATION_FIRST <= bits_value(input.bytes(), input.position(), 5)
                <= TC_IDENTIFICATION_LAST,
        decreases 8 - i,
    {
        proof {
            lemma2_to64();
        }
        let (code, next) = match cursor.take(6) {
            Ok(x) => x,
            Err(e) => { return Err(e); },
        };
        codes.push(code as u8);
        cursor = next;
        i = i + 1;
    }
    assert(codes@ =~= callsign_codes(input.bytes(), input.position() + 8));
    let callsign = decode_callsign(codes);
    Ok((ADSBMessageKind::AircraftIdentification { emitter_category: emitter_category as u8, callsign }, cursor))
}

/// An altitude code of twelve bits: seven bits, the Q bit, four bits.
pub open spec fn altitude(data: Seq<u8>, at: int) -> Parsed<u16> {
    let feet = altitude_feet(
        bits_value(data, at, 7) as u8,
        bits_value(data, at + 7, 1) == 1,
        bits_value(data, at + 8, 4) as u8,
    );
    if bits_left(data, at) < 12 {
        Err(ErrorKind::Truncated)
    } else {
        match feet {
            Some(value) => Ok((value, at + 12)),
            None => Err(ErrorKind::ArithmeticOverflow),
        }
    }
}

/// Reads an altitude code and decodes it to feet.
pub fn parse_altitude<'a>(input: BitCursor<'a>) -> (r: Result<(u16, BitCursor<'a>), ParserError>)
    ensures
        conforms(input, r, altitude(input.bytes(), input.position())),
{
    proof {
        lemma2_to64();
    }
    let (l, input1) = match input.take(7) {
        Ok(x) => x,
        Err(e) => { return Err(e); },
    };
    let (q, input2) = match parse_flag(input1) {
        Ok(x) => x,
        Err(e) => { return Err(e); },
    };
    let (r, input3) = match input2.take(4) {
        Ok(x) => x,
        Err(e) => { return Err(e); },
    };
    match decode_altitude(l as u8, q, r as u8) {
        Some(value) => Ok((value, input3)),
        None => Err(ParserError::new(ErrorKind::ArithmeticOverflow)),
    }
}

/// Airborne position: type code (5 bits, 9 to 18), surveillance status
/// (3 bits), altitude code (12 bits), one bit that is passed over, the parity
/// bit, and the CPR latitude and longitude (17 bits each).
pub open spec fn airborne_position(data: Seq<u8>, at: int) -> Parsed<AdsbKindModel> {
    let type_code = bits_value(data, at, 5);
    if bits_left(data, at) < 5 {
        Err(ErrorKind::Truncated)
    } else if !(TC_POSITION_FIRST <= type_code <= TC_POSITION_LAST) {
        Err(ErrorKind::ConstraintViolation)
    } else if bits_left(data, at) < 8 {
        Err(ErrorKind::Truncated)
    } else {
        match altitude(data, at + 8) {
            Err(e) => Err(e),
            Ok((feet, _)) => if bits_left(data, at) < 56 {
                Err(ErrorKind::Truncated)
            } else {
                Ok(
                    (
                        AdsbKindModel::AirbornePosition {
                            altitude: feet,
                            cpr_frame: CPRFrame {
                                position: Position {
                                    latitude: bits_value(data, at + 22, 17) as u32,
                                    longitude: bits_value(data, at + 39, 17) as u32,
                                },
                                parity: if bits_value(data, at + 21, 1) == 1 {
                                    Parity::Odd
                                } else {
                                    Parity::Even
                                },
                            },
                        },
                        at + 56,
                    ),
                )
            },
        }
    }
}

/// Reads an airborne position message.
pub fn parse_airborne_position<'a>(input: BitCursor<'a>) -> (r: Result<
    (ADSBMessageKind, BitCursor<'a>),
    ParserError,
>)
    ensures
        conforms_view(input, r, airborne_position(input.bytes(), input.position())),
        r matches Ok((ADSBMessageKind::AirbornePosition { cpr_frame, .. }, _)) ==> cpr_frame.wf(),
{
    proof {
        lemma2_to64();
        lemma_bits_value_bound(input.bytes(), input.position(), 5);
    }
    let in_range = |tc: u32| -> (ok: bool)
        ensures
            ok == (TC_POSITION_FIRST <= tc <= TC_POSITION_LAST),
        { TC_POSITION_FIRST <= tc && tc <= TC_POSITION_LAST };
    let (_, input1) = match input.verify(5, in_range) {
        Ok(x) => x,
        Err(e) => { return Err(e); },
    };
    let input2 = match input1.skip(3) {
        Ok(x) => x,
        Err(e) => { return Err(e); },
    };
    let (altitude, input3) = match parse_altitude(input2) {
        Ok(x) => x,
        Err(e) => { return Err(e); },
    };
    let input4 = match input3.skip(1) {
        Ok(x) => x,
        Err(e) => { return Err(e); },
    };
    let (parity, input5) = match parse_cpr_parity(input4) {
        Ok(x) => x,
        Err(e) => { return Err(e); },
    };
    let (latitude, input6) = match parse_coordinate(input5) {
        Ok(x) => x,
        Err(e) => { return Err(e); },
    };
    let (longitude, input7) = match parse_coordinate(input6) {
        Ok(x) => x,
        Err(e) => { return Err(e); },
    };
    let message = ADSBMessageKind::AirbornePosition {
        altitude,
        cpr_frame: CPRFrame { position: Position { latitude, longitude }, parity },
    };
    Ok((message, input7))
}

/// The velocity fields of an airborne velocity message: sign and magnitude
/// (1 + 10 bits) of the east-west and of the north-south component, the
/// source of the vertical rate (1 bit), its sign and magnitude (1 + 9 bits),
/// and ten more bits that are passed over.
pub open spec fn velocity_fields(data: Seq<u8>, at: int) -> Parsed<AdsbKindModel> {
    let rate = vertical_rate_fpm(
        bits_value(data, at + 23, 1) == 1,
        bits_value(data, at + 24, 9) as u16,
    );
    if bits_left(data, at) < 43 {
        Err(ErrorKind::Truncated)
    } else {
        match rate {
            None => Err(ErrorKind::ArithmeticOverflow),
            Some(fpm) => Ok(
                (
                    AdsbKindModel::AirborneVelocity {
                        east_west_velocity: signed_velocity(
                            bits_value(data, at, 1) == 1,
                            bits_value(data, at + 1, 10) as u16,
                        ) as i16,
                        north_south_velocity: signed_velocity(
                            bits_value(data, at + 11, 1) == 1,
                            bits_value(data, at + 12, 10) as u16,
                        ) as i16,
                        vertical_rate: fpm as i16,
                        vertical_rate_source: if bits_value(data, at + 22, 1) == 1 {
                            VerticalRateSource::GeometricAltitude
                        } else {
                            VerticalRateSource::BarometricPressureAltitude
                        },
                    },
                    at + 43,
                ),
            ),
        }
    }
}

/// Reads the velocity fields of an airborne velocity message.
fn parse_velocity_fields<'a>(input: BitCursor<'a>) -> (r: Result<
    (ADSBMessageKind, BitCursor<'a>),
    ParserError,
>)
    ensures
        conforms_view(input, r, velocity_fields(input.bytes(), input.position())),
{
    let (ew_sign, input1) = match parse_sign(input) {
        Ok(x) => x,
        Err(e) => { return Err(e); },
    };
    let (ew_vel, input2) = match parse_velocity(input1) {
        Ok(x) => x,
        Err(e) => { return Err(e); },
    };
    let (ns_sign, input3) = match parse_sign(input2) {
        Ok(x) => x,
        Err(e) => { return Err(e); },
    };
    let (ns_vel, input4) = match parse_velocity(input3) {
        Ok(x) => x,
        Err(e) => { return Err(e); },
    };
    let (vrate_src, input5) = match parse_vertical_rate_source(input4) {
        Ok(x) => x,
        Err(e) => { return Err(e); },
    };
    let (vrate_sign, input6) = match parse_sign(input5) {
        Ok(x) => x,
        Err(e) => { return Err(e); },
    };
    let (vrate_value, input7) = match parse_vertical_rate(input6) {
        Ok(x) => x,
        Err(e) => { return Err(e); },
    };
    let input8 = match input7.skip(10) {
        Ok(x) => x,
        Err(e) => { return Err(e); },
    };
    let vertical_rate = match decode_vertical_rate(vrate_sign < 0, vrate_value) {
        Some(v) => v,
        None => { return Err(ParserError::new(ErrorKind::ArithmeticOverflow)); },
    };
    let message = ADSBMessageKind::AirborneVelocity {
        east_west_velocity: decode_velocity(ew_sign < 0, ew_vel),
        north_south_velocity: decode_velocity(ns_sign < 0, ns_vel),
        vertical_rate,
        vertical_rate_source: vrate_src,
    };
    Ok((message, input8))
}

/// Airborne velocity over ground: type code (5 bits, 19), subtype (3 bits,
/// 1), five bits that are passed over, and the velocity fields.
pub open spec fn airborne_velocity(data: Seq<u8>, at: int) -> Parsed<AdsbKindModel> {
    let type_code = bits_value(data, at, 5);
    let subtype = bits_value(data, at + 5, 3);
    if bits_left(data, at) < 5 {
        Err(ErrorKind::Truncated)
    } else if type_code != TC_VELOCITY {
        Err(ErrorKind::ConstraintViolation)
    } else if bits_left(data, at) < 8 {
        Err(ErrorKind::Truncated)
    } else if subtype != VELOCITY_SUBTYPE_GROUND_SPEED {
        Err(ErrorKind::ConstraintViolation)
    } else if bits_left(data, at) < 13 {
        Err(ErrorKind::Truncated)
    } else {
        velocity_fields(data, at + 13)
    }
}

/// Reads an airborne velocity message of the ground speed subtype.
pub fn parse_airborne_velocity<'a>(input: BitCursor<'a>) -> (r: Result<
    (ADSBMessageKind, BitCursor<'a>),
    ParserError,
>)
    ensures
        conforms_view(input, r, airborne_velocity(input.bytes(), input.position())),
{
    proof {
        lemma2_to64();
        lemma_bits_value_bound(input.bytes(), input.position(), 5);
        lemma_bits_value_bound(input.bytes(), input.position() + 5, 3);
    }
    let is_velocity = |tc: u32| -> (ok: bool)
        ensures
            ok == (tc == TC_VELOCITY),
        { tc == TC_VELOCITY };
    let is_ground_speed = |st: u32| -> (ok: bool)
        ensures
            ok == (st == VELOCITY_SUBTYPE_GROUND_SPEED),
        { st == VELOCITY_SUBTYPE_GROUND_SPEED };
    let (_, input1) = match input.verify(5, is_velocity) {
        Ok(x) => x,
        Err(e) => { return Err(e); },
    };
    let (_, input2) = match input1.verify(3, is_ground_speed) {
        Ok(x) => x,
        Err(e) => { return Err(e); },
    };
    let input3 = match input2.skip(5) {
        Ok(x) => x,
        Err(e) => { return Err(e); },
    };
    parse_velocity_fields(input3)
}

/// The three bytes of an address that is sent in the clear.
pub open spec fn icao_address(data: Seq<u8>, at: int) -> Parsed<ICAOAddress> {
    if bits_left(data, at) < 24 {
        Err(ErrorKind::Truncated)
    } else {
        Ok(
            (
                ICAOAddress(
                    bits_value(data, at, 8) as u8,
                    bits_value(data, at + 8, 8) as u8,
                    bits_value(data, at + 16, 8) as u8,
                ),
                at + 24,
            ),
        )
    }
}

/// Reads an address that is sent in the clear.
pub fn parse_icao_address<'a>(input: BitCursor<'a>) -> (r: Result<
    (ICAOAddress, BitCursor<'a>),
    ParserError,
>)
    ensures
        conforms(input, r, icao_address(input.bytes(), input.position())),
{
    proof {
        lemma2_to64();
    }
    let (a, input1) = match input.take(8) {
        Ok(x) => x,
        Err(e) => { return Err(e); },
    };
    let (b, input2) = match input1.take(8) {
        Ok(x) => x,
        Err(e) => { return Err(e); },
    };
    let (c, input3) = match input2.take(8) {
        Ok(x) => x,
        Err(e) => { return Err(e); },
    };
    Ok((ICAOAddress(a as u8, b as u8, c as u8), input3))
}

/// The payload of an extended squitter. Its first five bits, the type code,
/// select the one sub-grammar that reads it; a type code that none of them
/// takes is refused.
pub open spec fn adsb_message_kind(data: Seq<u8>, at: int) -> Parsed<AdsbKindModel> {
    let type_code = bits_value(data, at, 5);
    if bits_left(data, at) < 5 {
        Err(ErrorKind::Truncated)
    } else if TC_IDENTIFICATION_FIRST <= type_code <= TC_IDENTIFICATION_LAST {
        aircraft_identification(data, at)
    } else if TC_POSITION_FIRST <= type_code <= TC_POSITION_LAST {
        airborne_position(data, at)
    } else if type_code == TC_VELOCITY {
        airborne_velocity(data, at)
    } else {
        Err(ErrorKind::ConstraintViolation)
    }
}

/// Reads the payload of an extended squitter.
pub fn parse_adsb_message_kind<'a>(input: BitCursor<'a>) -> (r: Result<
    (ADSBMessageKind, BitCursor<'a>),
    ParserError,
>)
    ensures
        conforms_view(input, r, adsb_message_kind(input.bytes(), input.position())),
        r matches Ok((ADSBMessageKind::AirbornePosition { cpr_frame, .. }, _)) ==> cpr_frame.wf(),
{
    let type_code = match input.peek(5) {
        Ok(x) => x,
        Err(e) => { return Err(e); },
    };
    if TC_IDENTIFICATION_FIRST <= type_code && type_code <= TC_IDENTIFICATION_LAST {
        parse_aircraft_identification(input)
    } else if TC_POSITION_FIRST <= type_code && type_code <= TC_POSITION_LAST {
        parse_airborne_position(input)
    } else if type_code == TC_VELOCITY {
        parse_airborne_velocity(input)
    } else {
        Err(ParserError::new(ErrorKind::ConstraintViolation))
    }
}

/// An extended squitter up to its parity field: downlink format (5 bits, 17
/// or 18), capability (3 bits), address (24 bits), payload (56 bits).
pub open spec fn adsb_message(data: Seq<u8>, at: int) -> Parsed<MessageKindModel> {
    let downlink_format = bits_value(data, at, 5);
    if bits_left(data, at) < 5 {
        Err(ErrorKind::Truncated)
    } else if downlink_format != DF_EXTENDED_SQUITTER && downlink_format
        != DF_EXTENDED_SQUITTER_NON_TRANSPONDER {
        Err(ErrorKind::UnexpectedValue)
    } else if bits_left(data, at) < 32 {
        Err(ErrorKind::Truncated)
    } else {
        match adsb_message_kind(data, at + 32) {
            Err(e) => Err(e),
            Ok((kind, end)) => Ok(
                (
                    MessageKindModel::ADSBMessage {
                        capability: bits_value(data, at + 5, 3) as u8,
                        icao_address: ICAOAddress(
                            bits_value(data, at + 8, 8) as u8,
                            bits_value(data, at + 16, 8) as u8,
                            bits_value(data, at + 24, 8) as u8,
                        ),
                        type_code: bits_value(data, at + 32, 5) as u8,
                        kind,
                    },
                    end,
                ),
            ),
        }
    }
}

/// Reads an extended squitter up to its parity field.
pub fn parse_adsb_message<'a>(input: BitCursor<'a>) -> (r: Result<
    (MessageKind, BitCursor<'a>),
    ParserError,
>)
    ensures
        conforms_view(input, r, adsb_message(input.bytes(), input.position())),
{
    proof {
        lemma2_to64();
    }
    let (_, input1) = match input.tag(5, DF_EXTENDED_SQUITTER) {
        Ok(x) => x,
        Err(_) => match input.tag(5, DF_EXTENDED_SQUITTER_NON_TRANSPONDER) {
            Ok(x) => x,
            Err(e) => { return Err(e); },
        },
    };
    let (capability, input2) = match input1.take(3) {
        Ok(x) => x,
        Err(e) => { return Err(e); },
    };
    let (icao_address, input3) = match parse_icao_address(input2) {
        Ok(x) => x,
        Err(e) => { return Err(e); },
    };
    let type_code = match input3.peek(5) {
        Ok(x) => x,
        Err(e) => { return Err(e); },
    };
    let (kind, input4) = match parse_adsb_message_kind(input3) {
        Ok(x) => x,
        Err(e) => { return Err(e); },
    };
    let message = MessageKind::ADSBMessage {
        capability: capability as u8,
        icao_address,
        type_code: type_code as u8,
        kind,
    };
    Ok((message, input4))
}

/// A message whose downlink format no sub-grammar takes: nothing is read.
pub fn parse_unknown<'a>(input: BitCursor<'a>) -> (r: Result<
    (MessageKind, BitCursor<'a>),
    ParserError,
>)
    ensures
        r == Ok::<(MessageKind, BitCursor<'a>), ParserError>((MessageKind::Unknown, input)),
{
    Ok((MessageKind::Unknown, input))
}

/// The body of a surveillance identity reply: downlink format (5 bits, 5),
/// flight status (3 bits), downlink request (5 bits), utility message
/// (6 bits), identity code (13 bits). The identity code is a squawk in
/// Gillham interleaving.
pub open spec fn surveillance_identity(data: Seq<u8>, at: int) -> Parsed<ModeSMessageKind> {
    if bits_left(data, at) < 5 {
        Err(ErrorKind::Truncated)
    } else if bits_value(data, at, 5) != DF_SURVEILLANCE_IDENTITY {
        Err(ErrorKind::UnexpectedValue)
    } else if bits_left(data, at) < 32 {
        Err(ErrorKind::Truncated)
    } else {
        Ok(
            (
                ModeSMessageKind::SurveillanceIdentity {
                    squawk: Squawk::of(gillham_permute(bits_value(data, at + 19, 13) as u16)),
                },
                at + 32,
            ),
        )
    }
}

/// Reads the body of a surveillance identity reply.
pub fn parse_surveillance_identity<'a>(input: BitCursor<'a>) -> (r: Result<
    (ModeSMessageKind, BitCursor<'a>),
    ParserError,
>)
    ensures
        conforms(input, r, surveillance_identity(input.bytes(), input.position())),
{
    proof {
        lemma2_to64();
    }
    let (_, input1) = match input.tag(5, DF_SURVEILLANCE_IDENTITY) {
        Ok(x) => x,
        Err(e) => { return Err(e); },
    };
    let input2 = match input1.skip(3) {
        Ok(x) => x,
        Err(e) => { return Err(e); },
    };
    let input3 = match input2.skip(5) {
        Ok(x) => x,
        Err(e) => { return Err(e); },
    };
    let input4 = match input3.skip(6) {
        Ok(x) => x,
        Err(e) => { return Err(e); },
    };
    let (id_code, input5) = match input4.take(13) {
        Ok(x) => x,
        Err(e) => { return Err(e); },
    };
    let squawk_code = decode_id_13_field(id_code as u16);
    Ok((ModeSMessageKind::SurveillanceIdentity { squawk: Squawk::from(squawk_code) }, input5))
}

/// Reads the body of a Mode-S reply; the surveillance identity reply is the
/// one kind there is.
pub fn parse_mode_s_message_kind<'a>(input: BitCursor<'a>) -> (r: Result<
    (ModeSMessageKind, BitCursor<'a>),
    ParserError,
>)
    ensures
        conforms(input, r, surveillance_identity(input.bytes(), input.position())),
{
    parse_surveillance_identity(input)
}

/// The address that a 24-bit remainder spells, first byte most significant.
pub open spec fn address_of_remainder(rem: u32) -> ICAOAddress {
    ICAOAddress(((rem & 0xff0000) >> 16) as u8, ((rem & 0x00ff00) >> 8) as u8, (rem & 0x0000ff) as u8)
}

/// The seven bytes of the short frame that holds bit `at`.
pub open spec fn short_frame(data: Seq<u8>, at: int) -> Seq<u8> {
    data.subrange(at / 8, at / 8 + 7)
}

/// A surveillance identity reply up to its parity field. The address is not
/// among its bits: the sender adds it into the checksum that ends the frame,
/// so the remainder of the whole 7-byte frame is the address. A frame that
/// was damaged on its way gives a wrong address, and nothing tells.
pub open spec fn mode_s_message(data: Seq<u8>, at: int) -> Parsed<MessageKindModel> {
    match surveillance_identity(data, at) {
        Err(e) => Err(e),
        Ok((kind, end)) => if data.len() < at / 8 + 7 {
            Err(ErrorKind::Truncated)
        } else {
            Ok(
                (
                    MessageKindModel::ModeSMessage {
                        icao_address: address_of_remainder(crc_remainder(short_frame(data, at))),
                        kind,
                    },
                    end,
                ),
            )
        },
    }
}

/// Reads a surveillance identity reply up to its parity field, and recovers
/// the sender's address from the checksum.
pub fn parse_mode_s_message<'a>(input: BitCursor<'a>) -> (r: Result<
    (MessageKind, BitCursor<'a>),
    ParserError,
>)
    ensures
        conforms_view(input, r, mode_s_message(input.bytes(), input.position())),
{
    let (kind, next) = match parse_mode_s_message_kind(input) {
        Ok(x) => x,
        Err(e) => { return Err(e); },
    };
    let frame = match input.frame(7) {
        Some(x) => x,
        None => { return Err(ParserError::new(ErrorKind::Truncated)); },
    };
    let crc: u32 = match get_crc_remainder(frame) {
        Ok(x) => x,
        Err(e) => { return Err(ParserError::from(e)); },
    };
    let icao_address = ICAOAddress(
        ((crc & 0xff0000) >> 16) as u8,
        ((crc & 0x00ff00) >> 8) as u8,
        (crc & 0x0000ff) as u8,
    );
    Ok((MessageKind::ModeSMessage { icao_address, kind }, next))
}

/// A whole frame. Its first five bits are the downlink format, which is
/// looked at before anything is read:
///
/// - 5: a surveillance identity reply, then 24 bits of parity;
/// - 17 or 18: an extended squitter, then 24 bits of parity, which are read
///   and not held against a checksum;
/// - any other: the message is of unknown kind, and of the frame only the
///   downlink format counts as read.
///
/// The second part of a success is the number of bits read.
pub open spec fn message(data: Seq<u8>) -> Parsed<MessageModel> {
    let downlink_format = bits_value(data, 0, 5);
    let body = if downlink_format == DF_SURVEILLANCE_IDENTITY {
        mode_s_message(data, 0)
    } else {
        adsb_message(data, 0)
    };
    if bits_left(data, 0) < 5 {
        Err(ErrorKind::Truncated)
    } else if downlink_format == DF_SURVEILLANCE_IDENTITY || downlink_format
        == DF_EXTENDED_SQUITTER || downlink_format == DF_EXTENDED_SQUITTER_NON_TRANSPONDER {
        match body {
            Err(e) => Err(e),
            Ok((kind, end)) => if bits_left(data, end) < 24 {
                Err(ErrorKind::Truncated)
            } else {
                Ok((MessageModel { downlink_format: downlink_format as u8, kind }, end + 24))
            },
        }
    } else {
        Ok(
            (
                MessageModel {
                    downlink_format: downlink_format as u8,
                    kind: MessageKindModel::Unknown,
                },
                5,
            ),
        )
    }
}

/// The bytes of `data` behind the first `end` bits; a byte that was read in
/// part is left out.
pub open spec fn unread(data: Seq<u8>, end: int) -> Seq<u8> {
    data.subrange((end + 7) / 8, data.len() as int)
}

/// `r` is what [`message`] demands for the frame `data`: the message, and the
/// bytes that were not read.
pub open spec fn decoded(data: Seq<u8>, r: Result<(Message, Seq<u8>), ParserError>) -> bool {
    match r {
        Ok((m, rest)) => message(data) matches Ok((model, end)) && m@ == model && rest == unread(
            data,
            end,
        ),
        Err(e) => message(data) == Err::<(MessageModel, int), ErrorKind>(e.kind),
    }
}

/// Decodes one frame, and returns the bytes behind it with the message.
pub fn parse_message(input: &[u8]) -> (r: Result<(&[u8], Message), ParserError>)
    ensures
        match r {
            Ok((rest, m)) => decoded(input@, Ok((m, rest@))),
            Err(e) => decoded(input@, Err(e)),
        },
{
    proof {
        lemma2_to64();
    }
    let start = BitCursor::new(input);
    let downlink_format = match start.peek(5) {
        Ok(x) => x,
        Err(e) => { return Err(e); },
    };
    let (kind, body_end) = if downlink_format == DF_SURVEILLANCE_IDENTITY {
        match parse_mode_s_message(start) {
            Ok(x) => x,
            Err(e) => { return Err(e); },
        }
    } else if downlink_format == DF_EXTENDED_SQUITTER || downlink_format
        == DF_EXTENDED_SQUITTER_NON_TRANSPONDER {
        match parse_adsb_message(start) {
            Ok(x) => x,
            Err(e) => { return Err(e); },
        }
    } else {
        let end = match start.skip(5) {
            Ok(x) => x,
            Err(e) => { return Err(e); },
        };
        return Ok(
            (end.rest(), Message { downlink_format: downlink_format as u8, kind: MessageKind::Unknown }),
        );
    };
    let end = match body_end.skip(24) {
        Ok(x) => x,
        Err(e) => { return Err(e); },
    };
    Ok((end.rest(), Message { downlink_format: downlink_format as u8, kind }))
}

/// Parse message from binary data. If successful, returns a tuple containing
/// the parsed message and a slice of remaining unparsed binary data.
pub fn parse_binary(data: &[u8]) -> (r: Result<(Message, &[u8]), ParserError>)
    ensures
        match r {
            Ok((m, rest)) => decoded(data@, Ok((m, rest@))),
            Err(e) => decoded(data@, Err(e)),
        },
{
    match parse_message(data) {
        Ok((remaining, message)) => Ok((message, remaining)),
        Err(e) => Err(e),
    }
}

/// Whether the payload at bit `at` is one that a sub-grammar takes and can
/// decode, given that all of its 56 bits are there.
pub open spec fn payload_decodable(data: Seq<u8>, at: int) -> bool {
    let type_code = bits_value(data, at, 5);
    ||| TC_IDENTIFICATION_FIRST <= type_code <= TC_IDENTIFICATION_LAST
    ||| {
        &&& TC_POSITION_FIRST <= type_code <= TC_POSITION_LAST
        &&& altitude_feet(
            bits_value(data, at + 8, 7) as u8,
            bits_value(data, at + 15, 1) == 1,
            bits_value(data, at + 16, 4) as u8,
        ).is_some()
    }
    ||| {
        &&& type_code == TC_VELOCITY
        &&& bits_value(data, at + 5, 3) == VELOCITY_SUBTYPE_GROUND_SPEED
        &&& bits_value(data, at + 37, 9) != 0
    }
}

/// A frame of 14 bytes or more whose downlink format is 17 or 18 decodes if
/// and only if its payload is decodable. The message then has the frame's
/// downlink format, holds an extended squitter, and 14 bytes count as read.
pub proof fn lemma_extended_squitter_decodes(data: Seq<u8>)
    requires
        data.len() >= 14,
        bits_value(data, 0, 5) == DF_EXTENDED_SQUITTER || bits_value(data, 0, 5)
            == DF_EXTENDED_SQUITTER_NON_TRANSPONDER,
    ensures
        message(data).is_ok() <==> payload_decodable(data, 32),
        message(data) matches Ok((m, end)) ==> {
            &&& m.downlink_format == bits_value(data, 0, 5)
            &&& m.kind is ADSBMessage
            &&& end == 112
        },
{
    lemma2_to64();
    lemma_bits_value_bound(data, 69, 9);
}

/// Every message that is decoded holds the downlink format that its frame
/// starts with, the messages of unknown kind too.
pub proof fn lemma_downlink_format_is_kept(data: Seq<u8>)
    ensures
        message(data) matches Ok((m, _)) ==> m.downlink_format == bits_value(data, 0, 5),
{
    lemma2_to64();
    lemma_bits_value_bound(data, 0, 5);
}

/// Every message that is decoded is well-formed.
pub proof fn lemma_decoded_message_is_well_formed(data: Seq<u8>)
    ensures
        message(data) matches Ok((m, _)) ==> m.wf(),
{
    lemma2_to64();
    lemma_bits_value_bound(data, 0, 5);
    lemma_bits_value_bound(data, 5, 3);
    lemma_bits_value_bound(data, 32, 5);
    lemma_bits_value_bound(data, 37, 3);
    lemma_bits_value_bound(data, 54, 17);
    lemma_bits_value_bound(data, 71, 17);
    lemma_bits_value_bound(data, 46, 10);
    lemma_bits_value_bound(data, 57, 10);
    lemma_bits_value_bound(data, 69, 9);
}

/// The downlink format is the upper five bits of the first byte.
pub proof fn lemma_downlink_format_of_first_byte(data: Seq<u8>)
    requires
        data.len() >= 1,
    ensures
        bits_value(data, 0, 5) == data[0] >> 3,
{
    reveal_with_fuel(bits_value, 6);
    let b = data[0];
    assert(2 * (2 * (2 * (2 * ((b >> 7) & 1) + ((b >> 6) & 1)) + ((b >> 5) & 1)) + ((b >> 4) & 1))
        + ((b >> 3) & 1) == b >> 3) by (bit_vector);
}

/// Every frame is answered, and a frame is refused for three reasons only: it
/// ends too early, its type code or subtype is not supported, or a value
/// leaves its range. A frame that is not empty and has another downlink
/// format than 5, 17 and 18 is never refused.
pub proof fn lemma_frame_errors(data: Seq<u8>)
    ensures
        message(data) matches Err(e) ==> e == ErrorKind::Truncated || e
            == ErrorKind::ConstraintViolation || e == ErrorKind::ArithmeticOverflow,
        data.len() == 0 ==> message(data) == Err::<(MessageModel, int), ErrorKind>(
            ErrorKind::Truncated,
        ),
        data.len() > 0 && bits_value(data, 0, 5) != DF_SURVEILLANCE_IDENTITY && bits_value(
            data,
            0,
            5,
        ) != DF_EXTENDED_SQUITTER && bits_value(data, 0, 5) != DF_EXTENDED_SQUITTER_NON_TRANSPONDER
            ==> message(data).is_ok(),
{
}

/// A frame whose downlink format is 5 decodes if and only if it has seven
/// bytes. Seven bytes then count as read, and the address is the remainder of
/// those seven bytes.
pub proof fn lemma_surveillance_identity_decodes(data: Seq<u8>)
    requires
        data.len() >= 1,
        bits_value(data, 0, 5) == DF_SURVEILLANCE_IDENTITY,
    ensures
        message(data).is_ok() <==> data.len() >= 7,
        message(data) matches Ok((m, end)) ==> {
            &&& end == 56
            &&& m.downlink_format == 5
            &&& m.kind matches MessageKindModel::ModeSMessage { icao_address, kind }
            &&& icao_address == address_of_remainder(crc_remainder(data.subrange(0, 7)))
            &&& kind == (ModeSMessageKind::SurveillanceIdentity {
                squawk: Squawk::of(gillham_permute(bits_value(data, 19, 13) as u16)),
            })
        },
{
}

} // verus!
