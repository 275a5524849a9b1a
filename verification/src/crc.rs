//! The Mode-S CRC-24: generator polynomial, lookup table and remainder.

use vstd::prelude::*;
use crate::types::{ErrorKind, ParserError};

verus! {

/// The generator polynomial, without its leading term.
pub const MODES_GENERATOR_POLY: u32 = 0xfff409;

/// Why no remainder could be computed.
#[derive(Debug, Clone, Copy, PartialEq, Eq, Structural)]
pub enum CrcError {
    /// The input is shorter than the three bytes of a checksum.
    InputTooShort,
}

impl CrcError {
    /// A sentence that describes the error.
    pub fn to_string(&self) -> (s: String)
        ensures
            s@ == "length in bytes must be >= 3 to calculate CRC"@,
    {
        "length in bytes must be >= 3 to calculate CRC".to_owned()
    }
}

impl From<CrcError> for ParserError {
    fn from(error: CrcError) -> (e: ParserError) {
        ParserError::new(ErrorKind::CrcInputTooShort)
    }
}

impl vstd::std_specs::convert::FromSpecImpl<CrcError> for ParserError {
    open spec fn obeys_from_spec() -> bool {
        true
    }

    open spec fn from_spec(error: CrcError) -> ParserError {
        ParserError { kind: ErrorKind::CrcInputTooShort }
    }
}

/// One step of the polynomial division in a 24-bit register: shift left by
/// one bit, and subtract the generator where a bit leaves the register.
pub open spec fn crc_shift(c: u32) -> u32 {
    (if c & 0x800000 != 0 {
        (c << 1) ^ MODES_GENERATOR_POLY
    } else {
        c << 1
    }) & 0xffffff
}

/// `k` steps of the division.
pub open spec fn crc_rounds(c: u32, k: nat) -> u32
    decreases k,
{
    if k == 0 {
        c
    } else {
        crc_shift(crc_rounds(c, (k - 1) as nat))
    }
}

/// Entry `i` of the lookup table: the byte `i`, placed at the top of the
/// register and divided for eight steps.
pub open spec fn crc_table(i: u8) -> u32 {
    crc_rounds((i as u32) << 16, 8)
}

/// The register after one more message byte.
pub open spec fn crc_step(rem: u32, byte: u8) -> u32 {
    ((rem << 8) ^ crc_table(((byte as u32) ^ ((rem & 0xff0000) >> 16)) as u8)) & 0xffffff
}

/// The register after all of `bytes`, starting from zero.
pub open spec fn crc_fold(bytes: Seq<u8>) -> u32
    decreases bytes.len(),
{
    if bytes.len() == 0 {
        0
    } else {
        crc_step(crc_fold(bytes.drop_last()), bytes.last())
    }
}

/// The three bytes as one 24-bit number, first byte most significant.
pub open spec fn trailer_value(b0: u8, b1: u8, b2: u8) -> u32 {
    ((b0 as u32) << 16) ^ ((b1 as u32) << 8) ^ (b2 as u32)
}

/// The remainder of a frame: the register after every byte but the last
/// three, with those three added in.
pub open spec fn crc_remainder(bytes: Seq<u8>) -> u32
    recommends
        bytes.len() >= 3,
{
    let n = bytes.len() as int;
    crc_fold(bytes.subrange(0, n - 3)) ^ trailer_value(bytes[n - 3], bytes[n - 2], bytes[n - 1])
}

/// Computes entry `i` of the lookup table.
pub fn crc_table_entry(i: u8) -> (r: u32)
    ensures
        r == crc_table(i),
{
    let mut c: u32 = (i as u32) << 16;
    let mut k: u8 = 0;
    while k < 8
        invariant
            k <= 8,
            c == crc_rounds((i as u32) << 16, k as nat),
        decreases 8 - k,
    {
        if c & 0x800000 != 0 {
            c = ((c << 1) ^ MODES_GENERATOR_POLY) & 0xffffff;
        } else {
            c = (c << 1) & 0xffffff;
        }
        k = k + 1;
    }
    c
}

/// The index into the table is a byte.
proof fn lemma_index_is_byte(rem: u32, byte: u8)
    ensures
        ((byte as u32) ^ ((rem & 0xff0000) >> 16)) < 256,
{
    assert(((byte as u32) ^ ((rem & 0xff0000u32) >> 16u32)) < 256u32) by (bit_vector);
}

/// Adding three bytes into a 24-bit register leaves a 24-bit register.
proof fn lemma_trailer_fits(rem: u32, b0: u8, b1: u8, b2: u8)
    requires
        rem <= 0xffffff,
    ensures
        rem ^ trailer_value(b0, b1, b2) <= 0xffffff,
        rem ^ ((b0 as u32) << 16) ^ ((b1 as u32) << 8) ^ (b2 as u32) == rem ^ trailer_value(
            b0,
            b1,
            b2,
        ),
{
    assert(rem <= 0xffffffu32 ==> (rem ^ (((b0 as u32) << 16u32) ^ ((b1 as u32) << 8u32) ^ (
    b2 as u32))) <= 0xffffffu32 && rem ^ ((b0 as u32) << 16u32) ^ ((b1 as u32) << 8u32) ^ (
    b2 as u32) == rem ^ (((b0 as u32) << 16u32) ^ ((b1 as u32) << 8u32) ^ (b2 as u32)))
        by (bit_vector);
}

/// The register never leaves 24 bits.
pub proof fn lemma_crc_fold_fits(bytes: Seq<u8>)
    ensures
        crc_fold(bytes) <= 0xffffff,
    decreases bytes.len(),
{
    if bytes.len() > 0 {
        let x = (crc_fold(bytes.drop_last()) << 8) ^ crc_table(
            ((bytes.last() as u32) ^ ((crc_fold(bytes.drop_last()) & 0xff0000) >> 16)) as u8,
        );
        assert(x & 0xffffff <= 0xffffff) by (bit_vector);
    }
}

/// The CRC-24 remainder of `input`. It is zero for a frame that carries its
/// own checksum, and the sender's address for a frame whose last three bytes
/// are the checksum with the address added in.
pub fn get_crc_remainder(input: &[u8]) -> (r: Result<u32, CrcError>)
    ensures
        match r {
            Ok(rem) => input@.len() >= 3 && rem == crc_remainder(input@) && rem <= 0xffffff,
            Err(e) => input@.len() < 3 && e == CrcError::InputTooShort,
        },
{
    let num_bytes: usize = input.len();
    if num_bytes < 3 {
        return Err(CrcError::InputTooShort);
    }
    let mut rem: u32 = 0;
    let mut i: usize = 0;
    while i < num_bytes - 3
        invariant
            num_bytes == input@.len(),
            num_bytes >= 3,
            i <= num_bytes - 3,
            rem == crc_fold(input@.subrange(0, i as int)),
        decreases num_bytes - i,
    {
        proof {
            lemma_index_is_byte(rem, input@[i as int]);
            assert(input@.subrange(0, i + 1).drop_last() =~= input@.subrange(0, i as int));
        }
        let idx: u32 = (input[i] as u32) ^ ((rem & 0xff0000) >> 16);
        rem = ((rem << 8) ^ crc_table_entry(idx as u8)) & 0xffffff;
        i = i + 1;
    }
    proof {
        lemma_crc_fold_fits(input@.subrange(0, num_bytes - 3));
        lemma_trailer_fits(
            rem,
            input@[num_bytes - 3],
            input@[num_bytes - 2],
            input@[num_bytes - 1],
        );
    }
    rem = rem ^ ((input[num_bytes - 3] as u32) << 16) ^ ((input[num_bytes - 2] as u32) << 8) ^ (
    input[num_bytes - 1] as u32);
    Ok(rem)
}

/// Whether a frame ends in the checksum of what stands before it.
pub open spec fn carries_checksum(frame: Seq<u8>) -> bool {
    let n = frame.len() as int;
    &&& n >= 3
    &&& trailer_value(frame[n - 3], frame[n - 2], frame[n - 1]) == crc_fold(
        frame.subrange(0, n - 3),
    )
}

/// The remainder of a frame is zero if and only if the frame ends in the
/// checksum of what stands before it.
pub proof fn lemma_zero_remainder_iff_checksum(frame: Seq<u8>)
    requires
        frame.len() >= 3,
    ensures
        crc_remainder(frame) == 0 <==> carries_checksum(frame),
{
    let n = frame.len() as int;
    let a = crc_fold(frame.subrange(0, n - 3));
    let b = trailer_value(frame[n - 3], frame[n - 2], frame[n - 1]);
    assert((a ^ b == 0) <==> (a == b)) by (bit_vector);
}

/// The checksum of a payload is the remainder of the payload with three zero
/// bytes behind it.
pub proof fn lemma_checksum_by_zero_trailer(payload: Seq<u8>)
    ensures
        crc_remainder(payload + seq![0u8, 0u8, 0u8]) == crc_fold(payload),
{
    let frame = payload + seq![0u8, 0u8, 0u8];
    let n = frame.len() as int;
    assert(frame.subrange(0, n - 3) =~= payload);
    let a = crc_fold(payload);
    assert(a ^ (((0u8 as u32) << 16) ^ ((0u8 as u32) << 8) ^ (0u8 as u32)) == a) by (bit_vector);
}

} // verus!
