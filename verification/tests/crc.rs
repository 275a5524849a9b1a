use adsb::crc::{crc_table_entry, get_crc_remainder, CrcError};
use adsb::{ErrorKind, ParserError};

#[test]
fn crc_valid() {
    let message_with_crc = b"\x8D\x48\x40\xD6\x20\x2C\xC3\x71\xC3\x2C\xE0\x57\x60\x98";
    assert_eq!(get_crc_remainder(message_with_crc).unwrap(), 0);
    let message_without_crc = &message_with_crc[0..message_with_crc.len() - 3];
    let crc = &message_with_crc[message_with_crc.len() - 3..message_with_crc.len()];
    assert_eq!(
        &get_crc_remainder([message_without_crc, b"\x00\x00\x00"].concat().as_slice())
            .unwrap()
            .to_be_bytes()[1..4],
        crc
    );
}

#[test]
fn crc_invalid() {
    let message_invalid_crc = b"\x8E\x48\x40\xD6\x20\x2C\xC3\x71\xC3\x2C\xE0\x57\x60\x98";
    assert_eq!(get_crc_remainder(message_invalid_crc), Ok(15242120));
}

#[test]
fn crc_input_too_short() {
    assert_eq!(get_crc_remainder(b"\x60\x98"), Err(CrcError::InputTooShort));
}

#[test]
fn crc_of_three_bytes_is_the_bytes() {
    assert_eq!(get_crc_remainder(b"\x12\x34\x56"), Ok(0x123456));
    assert_eq!(get_crc_remainder(b""), Err(CrcError::InputTooShort));
}

#[test]
fn crc_table_entries() {
    assert_eq!(crc_table_entry(0), 0);
    assert_eq!(crc_table_entry(1), 0xfff409);
    assert_eq!(crc_table_entry(2), 0x001c1b);
    assert_eq!(crc_table_entry(0x80), 0x0706c0);
    assert_eq!(crc_table_entry(255), 0xfa0480);
}

#[test]
fn crc_single_bit_flip_is_detected() {
    let frame = *b"\x8D\x48\x40\xD6\x20\x2C\xC3\x71\xC3\x2C\xE0\x57\x60\x98";
    assert_eq!(get_crc_remainder(&frame), Ok(0));
    for bit in 0..112 {
        let mut damaged = frame;
        damaged[bit / 8] ^= 0x80 >> (bit % 8);
        assert_ne!(get_crc_remainder(&damaged), Ok(0));
    }
}

#[test]
fn crc_error_text() {
    assert_eq!(
        CrcError::InputTooShort.to_string(),
        "length in bytes must be >= 3 to calculate CRC"
    );
}

#[test]
fn crc_recovers_an_address_added_to_the_checksum() {
    let payload = b"\x28\x00\x08\x08";
    let checksum = get_crc_remainder(&[&payload[..], b"\x00\x00\x00"].concat()).unwrap();
    for address in [0u32, 1, 0xA40442, 0x800000, 0xFFFFFF] {
        let trailer = (checksum ^ address).to_be_bytes();
        let frame = [&payload[..], &trailer[1..4]].concat();
        assert_eq!(get_crc_remainder(&frame), Ok(address));
    }
    assert_eq!(get_crc_remainder(b"\x28\x00\x08\x08\xF4\x60\xE0"), Ok(0xA40442));
}

#[test]
fn crc_error_as_parser_error() {
    let error = get_crc_remainder(b"\x60").map_err(ParserError::from).unwrap_err();
    assert_eq!(error.kind, ErrorKind::CrcInputTooShort);
    assert_eq!(error.to_string(), CrcError::InputTooShort.to_string());
}
