//! What the CRC-24 detects: a frame that carries its checksum and is then
//! changed within one byte no longer has the remainder zero.

use vstd::prelude::*;
use crate::crc::{
    carries_checksum, crc_fold, crc_remainder, crc_rounds, crc_shift, crc_step, crc_table,
    lemma_crc_fold_fits, lemma_zero_remainder_iff_checksum,
};

verus! {

/// A division step keeps the register in 24 bits, adds up over the sum of
/// two registers, and gives different registers for different ones.
proof fn lemma_shift(a: u32, b: u32)
    ensures
        crc_shift(a) <= 0xffffff,
        crc_shift(a ^ b) == crc_shift(a) ^ crc_shift(b),
        a <= 0xffffff && b <= 0xffffff && crc_shift(a) == crc_shift(b) ==> a == b,
{
    assert((if a & 0x800000 != 0 {
        (a << 1) ^ 0xfff409u32
    } else {
        a << 1
    }) & 0xffffff <= 0xffffff) by (bit_vector);
    assert((if (a ^ b) & 0x800000 != 0 {
        ((a ^ b) << 1) ^ 0xfff409u32
    } else {
        (a ^ b) << 1
    }) & 0xffffff == ((if a & 0x800000 != 0 {
        (a << 1) ^ 0xfff409u32
    } else {
        a << 1
    }) & 0xffffff) ^ ((if b & 0x800000 != 0 {
        (b << 1) ^ 0xfff409u32
    } else {
        b << 1
    }) & 0xffffff)) by (bit_vector);
    assert(a <= 0xffffff && b <= 0xffffff && (if a & 0x800000 != 0 {
        (a << 1) ^ 0xfff409u32
    } else {
        a << 1
    }) & 0xffffff == (if b & 0x800000 != 0 {
        (b << 1) ^ 0xfff409u32
    } else {
        b << 1
    }) & 0xffffff ==> a == b) by (bit_vector);
}

/// What holds of one division step holds of `k` of them.
proof fn lemma_rounds(a: u32, b: u32, k: nat)
    ensures
        a <= 0xffffff ==> crc_rounds(a, k) <= 0xffffff,
        crc_rounds(a ^ b, k) == crc_rounds(a, k) ^ crc_rounds(b, k),
        a <= 0xffffff && b <= 0xffffff && crc_rounds(a, k) == crc_rounds(b, k) ==> a == b,
    decreases k,
{
    if k > 0 {
        let j = (k - 1) as nat;
        lemma_rounds(a, b, j);
        lemma_rounds(b, a, j);
        lemma_shift(crc_rounds(a, j), crc_rounds(b, j));
    }
}

/// A register below 2^16 is only moved by up to eight division steps.
proof fn lemma_rounds_of_low_bits(low: u32, k: u32)
    requires
        low <= 0xffff,
        k <= 8,
    ensures
        crc_rounds(low, k as nat) == low << k,
    decreases k,
{
    if k == 0 {
        assert(low << 0 == low) by (bit_vector);
    } else {
        let j = (k - 1) as u32;
        lemma_rounds_of_low_bits(low, j);
        assert(low <= 0xffff && 1 <= k <= 8 && j == k - 1 ==> (if (low << j) & 0x800000 != 0 {
            ((low << j) << 1) ^ 0xfff409u32
        } else {
            (low << j) << 1
        }) & 0xffffff == low << k) by (bit_vector);
    }
}

/// Taking a byte into the register through the table is the same as adding
/// the byte to the top of the register and dividing for eight steps.
proof fn lemma_step_is_eight_rounds(rem: u32, byte: u8)
    requires
        rem <= 0xffffff,
    ensures
        crc_step(rem, byte) == crc_rounds(rem ^ ((byte as u32) << 16), 8),
        rem ^ ((byte as u32) << 16) <= 0xffffff,
{
    let c = byte as u32;
    let index = c ^ ((rem & 0xff0000) >> 16);
    let low = rem & 0xffff;
    assert(c < 256 && rem <= 0xffffff ==> index < 256 && low <= 0xffff && rem ^ (c << 16) == (index
        << 16) ^ low && rem ^ (c << 16) <= 0xffffff && index << 16 <= 0xffffff) by (bit_vector)
        requires
            index == c ^ ((rem & 0xff0000) >> 16),
            low == rem & 0xffff,
    ;
    lemma_rounds(index << 16, low, 8);
    lemma_rounds_of_low_bits(low, 8);
    let t = crc_table(index as u8);
    assert(t == crc_rounds(index << 16, 8));
    assert(t <= 0xffffff ==> ((rem << 8) ^ t) & 0xffffff == t ^ (low << 8)) by (bit_vector)
        requires
            low == rem & 0xffff,
    ;
}

/// Two registers that take the same byte stay different, and one register
/// that takes two different bytes becomes two different registers.
proof fn lemma_step_keeps_difference(rem1: u32, byte1: u8, rem2: u32, byte2: u8)
    requires
        rem1 <= 0xffffff,
        rem2 <= 0xffffff,
        (rem1 != rem2 && byte1 == byte2) || (rem1 == rem2 && byte1 != byte2),
    ensures
        crc_step(rem1, byte1) != crc_step(rem2, byte2),
{
    lemma_step_is_eight_rounds(rem1, byte1);
    lemma_step_is_eight_rounds(rem2, byte2);
    let c1 = byte1 as u32;
    let c2 = byte2 as u32;
    lemma_rounds(rem1 ^ (c1 << 16), rem2 ^ (c2 << 16), 8);
    assert(c1 < 256 && c2 < 256 && rem1 ^ (c1 << 16) == rem2 ^ (c2 << 16) ==> ((c1 == c2
        ==> rem1 == rem2) && (rem1 == rem2 ==> c1 == c2))) by (bit_vector);
}

/// `a` and `b` are of one length and differ at index `k`, and nowhere else.
pub open spec fn differ_at(a: Seq<u8>, b: Seq<u8>, k: int) -> bool {
    &&& a.len() == b.len()
    &&& 0 <= k < a.len()
    &&& a[k] != b[k]
    &&& forall|i: int| 0 <= i < a.len() && i != k ==> a[i] == b[i]
}

/// Two byte strings that differ in one byte leave different registers.
pub proof fn lemma_fold_keeps_difference(a: Seq<u8>, b: Seq<u8>, k: int)
    requires
        differ_at(a, b, k),
    ensures
        crc_fold(a) != crc_fold(b),
    decreases a.len(),
{
    let a0 = a.drop_last();
    let b0 = b.drop_last();
    lemma_crc_fold_fits(a0);
    lemma_crc_fold_fits(b0);
    if k == a.len() - 1 {
        assert(a0 =~= b0);
    } else {
        assert(differ_at(a0, b0, k));
        lemma_fold_keeps_difference(a0, b0, k);
    }
    lemma_step_keeps_difference(crc_fold(a0), a.last(), crc_fold(b0), b.last());
}

/// A frame that carries its checksum, and is then changed in one byte, has a
/// remainder other than zero: the change is seen, in the payload as in the
/// checksum.
pub proof fn lemma_damaged_byte_is_detected(frame: Seq<u8>, damaged: Seq<u8>, k: int)
    requires
        frame.len() >= 3,
        crc_remainder(frame) == 0,
        differ_at(frame, damaged, k),
    ensures
        crc_remainder(damaged) != 0,
{
    let n = frame.len() as int;
    lemma_zero_remainder_iff_checksum(frame);
    lemma_zero_remainder_iff_checksum(damaged);
    if k < n - 3 {
        assert(differ_at(frame.subrange(0, n - 3), damaged.subrange(0, n - 3), k));
        lemma_fold_keeps_difference(frame.subrange(0, n - 3), damaged.subrange(0, n - 3), k);
    } else {
        assert(frame.subrange(0, n - 3) =~= damaged.subrange(0, n - 3));
        let (a0, a1, a2) = (frame[n - 3], frame[n - 2], frame[n - 1]);
        let (b0, b1, b2) = (damaged[n - 3], damaged[n - 2], damaged[n - 1]);
        assert((((a0 as u32) << 16) ^ ((a1 as u32) << 8) ^ (a2 as u32)) == (((b0 as u32) << 16) ^ (
        (b1 as u32) << 8) ^ (b2 as u32)) ==> a0 == b0 && a1 == b1 && a2 == b2) by (bit_vector);
    }
}

/// The three bytes of a 24-bit number, most significant first.
pub open spec fn trailer_bytes(value: u32) -> Seq<u8> {
    seq![((value >> 16) & 0xff) as u8, ((value >> 8) & 0xff) as u8, (value & 0xff) as u8]
}

/// A sender that ends its frame with the checksum of the payload, with its
/// 24-bit address added in, is found again: the remainder of the frame is
/// the address. With the address zero the frame carries its plain checksum.
pub proof fn lemma_address_is_recovered(payload: Seq<u8>, address: u32)
    requires
        address <= 0xffffff,
    ensures
        crc_remainder(payload + trailer_bytes(crc_fold(payload) ^ address)) == address,
{
    let f = crc_fold(payload);
    let t = f ^ address;
    let frame = payload + trailer_bytes(t);
    let n = frame.len() as int;
    lemma_crc_fold_fits(payload);
    assert(frame.subrange(0, n - 3) =~= payload);
    let b0 = ((t >> 16) & 0xff) as u8;
    let b1 = ((t >> 8) & 0xff) as u8;
    let b2 = (t & 0xff) as u8;
    assert(frame[n - 3] == b0 && frame[n - 2] == b1 && frame[n - 1] == b2);
    assert(f <= 0xffffff && address <= 0xffffff ==> f ^ (((b0 as u32) << 16) ^ ((b1 as u32) << 8)
        ^ (b2 as u32)) == address) by (bit_vector)
        requires
            t == f ^ address,
            b0 == ((t >> 16) & 0xff) as u8,
            b1 == ((t >> 8) & 0xff) as u8,
            b2 == (t & 0xff) as u8,
    ;
}

/// The frame with bit `bit` flipped, counting from the most significant bit
/// of the first byte.
pub open spec fn with_bit_flipped(frame: Seq<u8>, bit: int) -> Seq<u8> {
    frame.update(bit / 8, frame[bit / 8] ^ (0x80u8 >> ((bit % 8) as u8)))
}

/// A frame that carries its checksum has the remainder zero, and with any
/// single bit flipped it has not.
pub proof fn lemma_flipped_bit_is_detected(frame: Seq<u8>, bit: int)
    requires
        carries_checksum(frame),
        0 <= bit < 8 * frame.len(),
    ensures
        crc_remainder(frame) == 0,
        crc_remainder(with_bit_flipped(frame, bit)) != 0,
{
    lemma_zero_remainder_iff_checksum(frame);
    let b = frame[bit / 8];
    let j = (bit % 8) as u8;
    assert(j < 8 ==> b ^ (0x80u8 >> j) != b) by (bit_vector);
    assert(differ_at(frame, with_bit_flipped(frame, bit), bit / 8));
    lemma_damaged_byte_is_detected(frame, with_bit_flipped(frame, bit), bit / 8);
}

} // verus!
