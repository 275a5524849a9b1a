use adsb::avr::{parse_avr, parse_avr_frame};
use adsb::bits::BitCursor;
use adsb::decode::{decode_altitude, decode_velocity, decode_vertical_rate};
use adsb::parser::{
    parse_adsb_message, parse_adsb_message_kind, parse_airborne_position, parse_airborne_velocity,
    parse_aircraft_identification, parse_altitude, parse_binary, parse_coordinate,
    parse_cpr_parity, parse_icao_address, parse_message, parse_mode_s_message,
    parse_mode_s_message_kind, parse_sign, parse_surveillance_identity, parse_unknown,
    parse_velocity, parse_vertical_rate, parse_vertical_rate_source,
};
use adsb::{
    decode_callsign, decode_id_13_field, ADSBMessageKind, CPRFrame, ErrorKind, ICAOAddress,
    Message, MessageKind, ModeSMessageKind, Parity, ParserError, Position, Squawk,
    VerticalRateSource,
};
use std::f64::consts::PI;
use std::str::FromStr;

const CAPABILITY: u8 = 5;

fn kind_of<T: std::fmt::Debug>(r: Result<T, ParserError>) -> ErrorKind {
    r.unwrap_err().kind
}

#[test]
fn test_parse_mode_s_0() {
    let r = b"\x28\x00\x1d\x8a\x2d\xa5\xae\x00\x00"; // AC3857 airborne squawking 5670.
    let (_remaining, mm) = parse_mode_s_message_kind(BitCursor::new(r))
        .map(|(mm, remaining)| (remaining, mm))
        .expect("parse error");
    assert_eq!(
        mm,
        ModeSMessageKind::SurveillanceIdentity { squawk: Squawk::from_str("5670").unwrap() }
    );
}

#[test]
fn test_parse_mode_s_1() {
    let r = b"\x28\x00\x08\x08\xF4\x60\xE0\x00\x00\x00\x00"; // squawk 1200
    let (_remaining, mm) = parse_mode_s_message(BitCursor::new(r))
        .map(|(mm, remaining)| (remaining, mm))
        .expect("parse error");
    assert_eq!(
        mm,
        MessageKind::ModeSMessage {
            icao_address: ICAOAddress(0xA4, 0x04, 0x42),
            kind: ModeSMessageKind::SurveillanceIdentity {
                squawk: Squawk::from_str("1200").unwrap()
            }
        }
    );
}

#[test]
fn test_parse_mode_s_2() {
    let r = b"\x28\x00\x08\x08\xF4\x60\xE0\x00\x00\x00\x00"; // squawk 1200
    let (_remaining, mm) = parse_mode_s_message(BitCursor::new(r))
        .map(|(mm, remaining)| (remaining, mm))
        .expect("parse error");
    assert_eq!(
        mm,
        MessageKind::ModeSMessage {
            icao_address: ICAOAddress(0xA4, 0x04, 0x42),
            kind: ModeSMessageKind::SurveillanceIdentity {
                squawk: Squawk::from_str("1200").unwrap()
            }
        }
    );
}

#[test]
fn parse_aircraft_identification_message() {
    let r = b"\x8D\x48\x40\xD6\x20\x2C\xC3\x71\xC3\x2C\xE0\x57\x60\x98";
    let (_, m) = parse_message(r).unwrap();
    assert_eq!(m.downlink_format, 17);
    assert_eq!(
        m.kind,
        MessageKind::ADSBMessage {
            capability: CAPABILITY,
            icao_address: ICAOAddress(0x48, 0x40, 0xD6),
            type_code: 4,
            kind: ADSBMessageKind::AircraftIdentification {
                emitter_category: 0,
                callsign: "KLM1023 ".to_string(),
            }
        }
    );
}

#[test]
fn parse_airborne_position_even_message() {
    let r = b"\x8D\x40\x62\x1D\x58\xC3\x82\xD6\x90\xC8\xAC\x28\x63\xA7";
    let (_, m) = parse_message(r).unwrap();
    assert_eq!(m.downlink_format, 17);
    assert_eq!(
        m.kind,
        MessageKind::ADSBMessage {
            capability: CAPABILITY,
            icao_address: ICAOAddress(0x40, 0x62, 0x1D),
            type_code: 11,
            kind: ADSBMessageKind::AirbornePosition {
                altitude: 38000,
                cpr_frame: CPRFrame {
                    parity: Parity::Even,
                    position: Position { latitude: 93000, longitude: 51372 }
                },
            }
        }
    );
}

#[test]
fn parse_airborne_position_odd_message() {
    let r = b"\x8D\x40\x62\x1D\x58\xC3\x86\x43\x5C\xC4\x12\x69\x2A\xD6";
    let (_, m) = parse_message(r).unwrap();
    assert_eq!(m.downlink_format, 17);
    assert_eq!(
        m.kind,
        MessageKind::ADSBMessage {
            capability: CAPABILITY,
            icao_address: ICAOAddress(0x40, 0x62, 0x1D),
            type_code: 11,
            kind: ADSBMessageKind::AirbornePosition {
                altitude: 38000,
                cpr_frame: CPRFrame {
                    parity: Parity::Odd,
                    position: Position { latitude: 74158, longitude: 50194 }
                },
            }
        }
    );
}

#[test]
fn parse_airborne_velocity_ground_speed() {
    let r = b"\x8D\x48\x50\x20\x99\x44\x09\x94\x08\x38\x17\x5B\x28\x4F";
    let (_, m) = parse_message(r).unwrap();
    assert_eq!(m.downlink_format, 17);
    assert_eq!(
        m.kind,
        MessageKind::ADSBMessage {
            capability: CAPABILITY,
            icao_address: ICAOAddress(0x48, 0x50, 0x20),
            type_code: 19,
            kind: ADSBMessageKind::AirborneVelocity {
                east_west_velocity: -8,
                north_south_velocity: -159,
                vertical_rate: -832,
                vertical_rate_source: VerticalRateSource::BarometricPressureAltitude,
            }
        }
    );
    // Heading and ground speed follow from the two components.
    let (v_ew, v_ns) = (-8.0f64, -159.0f64);
    let h = v_ew.atan2(v_ns) * (360.0 / (2.0 * PI));
    let heading = if h < 0.0 { h + 360.0 } else { h };
    let ground_speed = (v_ew.powi(2) + v_ns.powi(2)).sqrt();
    assert!((heading - 182.8803775528476).abs() < 1.0e-9);
    assert!((ground_speed - 159.20113064925135).abs() < 1.0e-9);
}

#[test]
fn parse_df18_airborne_position_even_message() {
    // This is a TIS-B message.
    let r = b"\x95\x29\x82\xE5\x68\x1B\x82\xB2\x2B\xB7\xE6\x34\xAE\x96";
    let (_, m) = parse_message(r).unwrap();
    assert_eq!(m.downlink_format, 18);
    assert_eq!(
        m.kind,
        MessageKind::ADSBMessage {
            capability: CAPABILITY,
            icao_address: ICAOAddress(0x29, 0x82, 0xE5),
            type_code: 13,
            kind: ADSBMessageKind::AirbornePosition {
                altitude: 4400,
                cpr_frame: CPRFrame {
                    parity: Parity::Even,
                    position: Position { latitude: 88341, longitude: 112614 }
                },
            }
        }
    );
}

#[test]
fn parse_single_avr_frame() {
    let r = "*8D4840D6202CC371C32CE0576098;";
    let (_, m) = parse_avr_frame(&r).unwrap();
    assert_eq!(m, b"\x8D\x48\x40\xD6\x20\x2C\xC3\x71\xC3\x2C\xE0\x57\x60\x98");
}

#[test]
#[allow(unused_must_use)]
fn parse_invalid_messages() {
    parse_binary(b"\x00");
    parse_binary(b"\x8a\x8f\xff`J\xb4\xc0");
    parse_binary(b"\x8a\xba\x8a#\x99\xff\x04\x00\x00\x00a");
}

#[test]
fn surveillance_identity_frame_gives_address_and_squawk() {
    let (m, rest) = parse_binary(b"\x28\x00\x08\x08\xF4\x60\xE0").unwrap();
    assert_eq!(
        m,
        Message {
            downlink_format: 5,
            kind: MessageKind::ModeSMessage {
                icao_address: ICAOAddress(0xA4, 0x04, 0x42),
                kind: ModeSMessageKind::SurveillanceIdentity { squawk: Squawk(0x12, 0x00) },
            },
        }
    );
    assert!(rest.is_empty());
    match m.kind {
        MessageKind::ModeSMessage { icao_address, kind: ModeSMessageKind::SurveillanceIdentity { squawk } } => {
            assert_eq!(icao_address.to_string(), "A40442");
            assert_eq!(squawk.to_string(), "1200");
        }
        _ => unreachable!(),
    }
    // Bytes behind the seven of the frame are handed back.
    let (m2, rest) = parse_binary(b"\x28\x00\x08\x08\xF4\x60\xE0\x01\x02").unwrap();
    assert_eq!(m2, m);
    assert_eq!(rest, b"\x01\x02");
    let (m3, _) = parse_binary(b"\x28\x00\x1d\x8a\x2d\xa5\xae").unwrap();
    assert_eq!(
        m3.kind,
        MessageKind::ModeSMessage {
            icao_address: ICAOAddress(0xAC, 0x38, 0x57),
            kind: ModeSMessageKind::SurveillanceIdentity { squawk: Squawk(0x56, 0x70) },
        }
    );
}

#[test]
fn surveillance_identity_frame_cut_short() {
    for len in 1..7 {
        let frame = &b"\x28\x00\x08\x08\xF4\x60\xE0"[..len];
        assert_eq!(kind_of(parse_binary(frame)), ErrorKind::Truncated);
    }
    // The body is there, the frame is not.
    let r = b"\x28\x00\x08\x08\xF4\x60";
    assert!(parse_mode_s_message_kind(BitCursor::new(r)).is_ok());
    assert_eq!(kind_of(parse_mode_s_message(BitCursor::new(r))), ErrorKind::Truncated);
}

#[test]
fn extended_squitter_keeps_its_downlink_format() {
    let frames: [&[u8; 14]; 5] = [
        b"\x8D\x48\x40\xD6\x20\x2C\xC3\x71\xC3\x2C\xE0\x57\x60\x98",
        b"\x8D\x40\x62\x1D\x58\xC3\x82\xD6\x90\xC8\xAC\x28\x63\xA7",
        b"\x8D\x40\x62\x1D\x58\xC3\x86\x43\x5C\xC4\x12\x69\x2A\xD6",
        b"\x8D\x48\x50\x20\x99\x44\x09\x94\x08\x38\x17\x5B\x28\x4F",
        b"\x95\x29\x82\xE5\x68\x1B\x82\xB2\x2B\xB7\xE6\x34\xAE\x96",
    ];
    for frame in frames {
        for capability in 0..8u8 {
            for df in [17u8, 18u8] {
                let mut f = *frame;
                f[0] = (df << 3) | capability;
                let (m, rest) = parse_binary(&f).unwrap();
                assert_eq!(m.downlink_format, df);
                assert!(rest.is_empty());
                match m.kind {
                    MessageKind::ADSBMessage { capability: c, .. } => assert_eq!(c, capability),
                    _ => panic!("not an extended squitter"),
                }
            }
        }
    }
}

#[test]
fn extended_squitter_trailing_bytes_and_truncation() {
    let frame = b"\x8D\x48\x40\xD6\x20\x2C\xC3\x71\xC3\x2C\xE0\x57\x60\x98\xAA\xBB\xCC";
    let (m, rest) = parse_binary(frame).unwrap();
    assert_eq!(m.downlink_format, 17);
    assert_eq!(rest, b"\xAA\xBB\xCC");
    for len in 1..14 {
        assert_eq!(kind_of(parse_binary(&frame[..len])), ErrorKind::Truncated);
    }
    assert_eq!(kind_of(parse_binary(b"")), ErrorKind::Truncated);
}

#[test]
fn unsupported_type_codes_are_refused() {
    let mut frame = *b"\x8D\x48\x40\xD6\x20\x2C\xC3\x71\xC3\x2C\xE0\x57\x60\x98";
    for tc in 0..32u8 {
        frame[4] = (tc << 3) | 1;
        let r = parse_binary(&frame);
        let supported = (1..=4).contains(&tc) || (9..=18).contains(&tc) || tc == 19;
        if !supported {
            assert_eq!(kind_of(r), ErrorKind::ConstraintViolation);
        }
    }
    // Type code 19 with another subtype than 1.
    let mut velocity = *b"\x8D\x48\x50\x20\x99\x44\x09\x94\x08\x38\x17\x5B\x28\x4F";
    velocity[4] = (19 << 3) | 3;
    assert_eq!(kind_of(parse_binary(&velocity)), ErrorKind::ConstraintViolation);
    // The sub-grammars refuse each other's type codes.
    let ident = b"\x20\x2C\xC3\x71\xC3\x2C\xE0";
    assert!(parse_aircraft_identification(BitCursor::new(ident)).is_ok());
    assert_eq!(kind_of(parse_airborne_position(BitCursor::new(ident))), ErrorKind::ConstraintViolation);
    assert_eq!(kind_of(parse_airborne_velocity(BitCursor::new(ident))), ErrorKind::ConstraintViolation);
    assert!(parse_adsb_message_kind(BitCursor::new(ident)).is_ok());
}

#[test]
fn unknown_downlink_formats() {
    let (m, rest) = parse_binary(b"\x00").unwrap();
    assert_eq!(m, Message { downlink_format: 0, kind: MessageKind::Unknown });
    assert!(rest.is_empty());
    let (m, rest) = parse_binary(b"\xFF\xFF\xFF\xFF").unwrap();
    assert_eq!(m, Message { downlink_format: 31, kind: MessageKind::Unknown });
    assert_eq!(rest, b"\xFF\xFF\xFF");
    let (m, rest) = parse_binary(b"\x5D\x01\x02").unwrap();
    assert_eq!(m, Message { downlink_format: 11, kind: MessageKind::Unknown });
    assert_eq!(rest, b"\x01\x02");
    let r = b"\x5D\x01";
    let start = BitCursor::new(r);
    let (kind, end) = parse_unknown(start).unwrap();
    assert_eq!(kind, MessageKind::Unknown);
    assert_eq!(end.offset(), (0, 0));
}

#[test]
fn wrong_preamble_is_an_unexpected_value() {
    let adsb = b"\x8D\x48\x40\xD6\x20\x2C\xC3\x71\xC3\x2C\xE0\x57\x60\x98";
    let mode_s = b"\x28\x00\x08\x08\xF4\x60\xE0";
    assert_eq!(kind_of(parse_surveillance_identity(BitCursor::new(adsb))), ErrorKind::UnexpectedValue);
    assert_eq!(kind_of(parse_mode_s_message(BitCursor::new(adsb))), ErrorKind::UnexpectedValue);
    assert_eq!(kind_of(parse_adsb_message(BitCursor::new(mode_s))), ErrorKind::UnexpectedValue);
    let (kind, end) = parse_adsb_message(BitCursor::new(adsb)).unwrap();
    assert!(matches!(kind, MessageKind::ADSBMessage { type_code: 4, .. }));
    assert_eq!(end.offset(), (11, 0));
}

#[test]
fn altitude_overflow_is_reported() {
    // Type code 11, altitude code 0: nothing to take 1000 ft from.
    let low = b"\x8D\x40\x62\x1D\x58\x00\x02\xD6\x90\xC8\xAC\x28\x63\xA7";
    assert_eq!(kind_of(parse_binary(low)), ErrorKind::ArithmeticOverflow);
    // Q = 0 and a large count: the product leaves 16 bits.
    let high = b"\x8D\x40\x62\x1D\x58\xFE\xF2\xD6\x90\xC8\xAC\x28\x63\xA7";
    assert_eq!(kind_of(parse_binary(high)), ErrorKind::ArithmeticOverflow);
    assert_eq!(decode_altitude(0b1100001, true, 0b1000), Some(38000));
    assert_eq!(decode_altitude(0, true, 0), None);
    assert_eq!(decode_altitude(2, true, 8), Some(0));
    assert_eq!(decode_altitude(2, true, 7), None);
    assert_eq!(decode_altitude(0, false, 10), Some(0));
    assert_eq!(decode_altitude(40, false, 15), Some(64500));
    assert_eq!(decode_altitude(41, false, 0), None);
    assert_eq!(decode_altitude(127, true, 15), Some(50175));
    let r = b"\xC3\x80";
    let (feet, end) = parse_altitude(BitCursor::new(r)).unwrap();
    assert_eq!(feet, 38000);
    assert_eq!(end.offset(), (1, 4));
    assert_eq!(kind_of(parse_altitude(BitCursor::new(b"\xC3"))), ErrorKind::Truncated);
}

#[test]
fn vertical_rate_and_velocity_values() {
    assert_eq!(decode_vertical_rate(true, 14), Some(-832));
    assert_eq!(decode_vertical_rate(false, 14), Some(832));
    assert_eq!(decode_vertical_rate(false, 1), Some(0));
    assert_eq!(decode_vertical_rate(false, 511), Some(32640));
    assert_eq!(decode_vertical_rate(true, 511), Some(-32640));
    assert_eq!(decode_vertical_rate(false, 0), None);
    assert_eq!(decode_vertical_rate(true, 0), None);
    assert_eq!(decode_velocity(true, 9), -8);
    assert_eq!(decode_velocity(false, 160), 159);
    assert_eq!(decode_velocity(false, 0), -1);
    assert_eq!(decode_velocity(true, 0), 1);
    assert_eq!(decode_velocity(true, 1023), -1022);
    // A vertical rate of magnitude 0 in a frame.
    let mut frame = *b"\x8D\x48\x50\x20\x99\x44\x09\x94\x08\x38\x17\x5B\x28\x4F";
    frame[8] &= 0xF8;
    frame[9] &= 0x03;
    assert_eq!(kind_of(parse_binary(&frame)), ErrorKind::ArithmeticOverflow);
}

#[test]
fn small_fields() {
    let r = b"\xA5\x5A\xFF";
    let c = BitCursor::new(r);
    let (p, next) = parse_cpr_parity(c).unwrap();
    assert_eq!(p, Parity::Odd);
    let (p, next) = parse_cpr_parity(next).unwrap();
    assert_eq!(p, Parity::Even);
    let (s, next) = parse_vertical_rate_source(next).unwrap();
    assert_eq!(s, VerticalRateSource::GeometricAltitude);
    let (s, next) = parse_vertical_rate_source(next).unwrap();
    assert_eq!(s, VerticalRateSource::BarometricPressureAltitude);
    let (sign, next) = parse_sign(next).unwrap();
    assert_eq!(sign, 1);
    let (sign, next) = parse_sign(next).unwrap();
    assert_eq!(sign, -1);
    // 0b01_0101_1010 from bit 6 on
    let (v, _) = parse_velocity(next).unwrap();
    assert_eq!(v, 0b01_0101_1010);
    let (v, _) = parse_vertical_rate(next).unwrap();
    assert_eq!(v, 0b0_1010_1101);
    let (v, end) = parse_coordinate(next).unwrap();
    assert_eq!(v, 0b0_1010_1101_0111_1111);
    assert_eq!(end.offset(), (2, 7));
    assert_eq!(kind_of(parse_coordinate(end)), ErrorKind::Truncated);
    let (a, end) = parse_icao_address(c).unwrap();
    assert_eq!(a, ICAOAddress(0xA5, 0x5A, 0xFF));
    assert_eq!(kind_of(parse_cpr_parity(end)), ErrorKind::Truncated);
    assert_eq!(kind_of(parse_vertical_rate_source(end)), ErrorKind::Truncated);
    assert_eq!(kind_of(parse_sign(end)), ErrorKind::Truncated);
    assert_eq!(kind_of(parse_icao_address(next)), ErrorKind::Truncated);
}

#[test]
fn identity_code_permutation() {
    assert_eq!(decode_id_13_field(0), 0);
    assert_eq!(decode_id_13_field(0x0808), 0x1200);
    assert_eq!(decode_id_13_field(0x1FFF), 0x7777);
    assert_eq!(decode_id_13_field(0x0040), 0);
    assert_eq!(decode_id_13_field(0xE000), 0);
    let moves = [(12, 4), (11, 12), (10, 5), (9, 13), (8, 6), (7, 14), (5, 8), (4, 0), (3, 9), (2, 1), (1, 10), (0, 2)];
    for (from, to) in moves {
        assert_eq!(decode_id_13_field(1 << from), 1 << to);
    }
}

#[test]
fn callsign_characters() {
    assert_eq!(decode_callsign(vec![11, 12, 13, 49, 48, 50, 51, 32]), "KLM1023 ");
    assert_eq!(decode_callsign(vec![]), "");
    let all: Vec<u8> = (0..64).collect();
    assert_eq!(
        decode_callsign(all),
        "#ABCDEFGHIJKLMNOPQRSTUVWXYZ##### ###############0123456789######"
    );
}

#[test]
fn every_short_input_is_answered() {
    for len in 0..=32usize {
        let zeros = vec![0u8; len];
        let r = parse_binary(&zeros);
        assert_eq!(r.is_ok(), len > 0);
        for first in [0x28u8, 0x88, 0x8D, 0x90, 0x95, 0xFF] {
            for fill in [0x00u8, 0xFF, 0x5A, 0x99] {
                let mut data = vec![fill; len];
                if len > 0 {
                    data[0] = first;
                }
                match parse_binary(&data) {
                    Ok((m, rest)) => {
                        assert_eq!(m.downlink_format, data[0] >> 3);
                        assert!(rest.len() < data.len());
                    }
                    Err(e) => assert_ne!(e.kind, ErrorKind::FramingError),
                }
            }
        }
    }
}

#[test]
fn avr_text() {
    let (m, rest) = parse_avr("*8D4840D6202CC371C32CE0576098;").unwrap();
    assert_eq!(m.downlink_format, 17);
    assert_eq!(rest, "");
    let (m, rest) = parse_avr("*28000808f460e0;\n*5D;").unwrap();
    assert_eq!(m.downlink_format, 5);
    assert_eq!(rest, "\n*5D;");
    let (rest, frame) = parse_avr_frame("*;x").unwrap();
    assert!(frame.is_empty());
    assert_eq!(rest, "x");
    let (rest, frame) = parse_avr_frame("*0aB1;\u{e9}").unwrap();
    assert_eq!(frame, vec![0x0A, 0xB1]);
    assert_eq!(rest, "\u{e9}");
    for bad in ["", "*", ";", "8D48;", "*8D4;", "*8D48", "*8D 48;", "*8G;", "* 8D;", "*\u{e9};"] {
        assert_eq!(kind_of(parse_avr_frame(bad)), ErrorKind::FramingError);
        assert_eq!(kind_of(parse_avr(bad)), ErrorKind::FramingError);
    }
    assert_eq!(kind_of(parse_avr("*;")), ErrorKind::Truncated);
    assert_eq!(kind_of(parse_avr("*8D4840D6;")), ErrorKind::Truncated);
    assert_eq!(kind_of(parse_avr("*8D4840D6002CC371C32CE0576098;")), ErrorKind::ConstraintViolation);
}
