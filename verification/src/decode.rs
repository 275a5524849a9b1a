//! Numeric transforms over fields that were already cut out of a frame.

use vstd::prelude::*;
use crate::text::push_char;

verus! {

/// Bit `from` of `f`, moved to place `to`.
pub open spec fn moved_bit(f: u16, from: u16, to: u16) -> u16 {
    ((f >> from) & 1) << to
}

/// The identity code with its Gillham interleaving undone. The field arrives
/// as C1 A1 C2 A2 C4 A4 X B1 D1 B2 D2 B4 D4 (bit 12 down to bit 0); the result
/// holds the four octal digits A, B, C, D as four hexadecimal digits.
pub open spec fn gillham_permute(f: u16) -> u16 {
    moved_bit(f, 12, 4) | moved_bit(f, 11, 12) | moved_bit(f, 10, 5) | moved_bit(f, 9, 13)
        | moved_bit(f, 8, 6) | moved_bit(f, 7, 14) | moved_bit(f, 5, 8) | moved_bit(f, 4, 0)
        | moved_bit(f, 3, 9) | moved_bit(f, 2, 1) | moved_bit(f, 1, 10) | moved_bit(f, 0, 2)
}

proof fn lemma_gillham(f: u16)
    ensures
        gillham_permute(f) == (if f & 0x1000 != 0 { 0x0010u16 } else { 0 }) | (if f & 0x0800 != 0 {
            0x1000u16
        } else {
            0
        }) | (if f & 0x0400 != 0 { 0x0020u16 } else { 0 }) | (if f & 0x0200 != 0 {
            0x2000u16
        } else {
            0
        }) | (if f & 0x0100 != 0 { 0x0040u16 } else { 0 }) | (if f & 0x0080 != 0 {
            0x4000u16
        } else {
            0
        }) | (if f & 0x0020 != 0 { 0x0100u16 } else { 0 }) | (if f & 0x0010 != 0 {
            0x0001u16
        } else {
            0
        }) | (if f & 0x0008 != 0 { 0x0200u16 } else { 0 }) | (if f & 0x0004 != 0 {
            0x0002u16
        } else {
            0
        }) | (if f & 0x0002 != 0 { 0x0400u16 } else { 0 }) | (if f & 0x0001 != 0 {
            0x0004u16
        } else {
            0
        }),
{
    assert((((f >> 12u16) & 1) << 4u16) | (((f >> 11u16) & 1) << 12u16) | (((f >> 10u16) & 1)
        << 5u16) | (((f >> 9u16) & 1) << 13u16) | (((f >> 8u16) & 1) << 6u16) | (((f >> 7u16) & 1)
        << 14u16) | (((f >> 5u16) & 1) << 8u16) | (((f >> 4u16) & 1) << 0u16) | (((f >> 3u16) & 1)
        << 9u16) | (((f >> 2u16) & 1) << 1u16) | (((f >> 1u16) & 1) << 10u16) | (((f >> 0u16) & 1)
        << 2u16) == (if f & 0x1000 != 0 { 0x0010u16 } else { 0 }) | (if f & 0x0800 != 0 {
        0x1000u16
    } else {
        0
    }) | (if f & 0x0400 != 0 { 0x0020u16 } else { 0 }) | (if f & 0x0200 != 0 {
        0x2000u16
    } else {
        0
    }) | (if f & 0x0100 != 0 { 0x0040u16 } else { 0 }) | (if f & 0x0080 != 0 {
        0x4000u16
    } else {
        0
    }) | (if f & 0x0020 != 0 { 0x0100u16 } else { 0 }) | (if f & 0x0010 != 0 {
        0x0001u16
    } else {
        0
    }) | (if f & 0x0008 != 0 { 0x0200u16 } else { 0 }) | (if f & 0x0004 != 0 {
        0x0002u16
    } else {
        0
    }) | (if f & 0x0002 != 0 { 0x0400u16 } else { 0 }) | (if f & 0x0001 != 0 {
        0x0004u16
    } else {
        0
    })) by (bit_vector);
}

/// Decodes the 13-bit identity field of a surveillance reply into a squawk
/// code, one hexadecimal digit for each octal digit.
pub fn decode_id_13_field(f: u16) -> (hex_gillham: u16)
    ensures
        hex_gillham == gillham_permute(f),
{
    proof {
        lemma_gillham(f);
    }
    let c1: u16 = if f & 0x1000 != 0 { 0x0010 } else { 0 };
    let a1: u16 = if f & 0x0800 != 0 { 0x1000 } else { 0 };
    let c2: u16 = if f & 0x0400 != 0 { 0x0020 } else { 0 };
    let a2: u16 = if f & 0x0200 != 0 { 0x2000 } else { 0 };
    let c4: u16 = if f & 0x0100 != 0 { 0x0040 } else { 0 };
    let a4: u16 = if f & 0x0080 != 0 { 0x4000 } else { 0 };
    let b1: u16 = if f & 0x0020 != 0 { 0x0100 } else { 0 };
    let d1: u16 = if f & 0x0010 != 0 { 0x0001 } else { 0 };
    let b2: u16 = if f & 0x0008 != 0 { 0x0200 } else { 0 };
    let d2: u16 = if f & 0x0004 != 0 { 0x0002 } else { 0 };
    let b4: u16 = if f & 0x0002 != 0 { 0x0400 } else { 0 };
    let d4: u16 = if f & 0x0001 != 0 { 0x0004 } else { 0 };
    c1 | a1 | c2 | a2 | c4 | a4 | b1 | d1 | b2 | d2 | b4 | d4
}

/// The character that a 6-bit callsign code stands for: 1 to 26 are the
/// letters, 32 is the space, 48 to 57 are the digits, and every other code is
/// shown as `#`.
pub open spec fn callsign_char(code: u8) -> char {
    if 1 <= code <= 26 {
        (code + 64) as char
    } else if code == 32 || 48 <= code <= 57 {
        code as char
    } else {
        '#'
    }
}

/// The callsign that a sequence of 6-bit codes spells.
pub open spec fn callsign_of(codes: Seq<u8>) -> Seq<char> {
    Seq::new(codes.len(), |i: int| callsign_char(codes[i]))
}

/// Maps each 6-bit code to its character; the result keeps every character,
/// trailing spaces too.
pub fn decode_callsign(encoded: Vec<u8>) -> (callsign: String)
    requires
        forall|i: int| 0 <= i < encoded@.len() ==> encoded@[i] < 64,
    ensures
        callsign@ == callsign_of(encoded@),
{
    let mut callsign = String::new();
    let mut i: usize = 0;
    while i < encoded.len()
        invariant
            i <= encoded@.len(),
            forall|j: int| 0 <= j < encoded@.len() ==> encoded@[j] < 64,
            callsign@ == callsign_of(encoded@.subrange(0, i as int)),
        decreases encoded@.len() - i,
    {
        let code: u8 = encoded[i];
        let c: char = if 1 <= code && code <= 26 {
            (code + 64) as char
        } else if code == 32 || (48 <= code && code <= 57) {
            code as char
        } else {
            '#'
        };
        push_char(&mut callsign, c);
        i = i + 1;
        assert(callsign@ =~= callsign_of(encoded@.subrange(0, i as int)));
    }
    assert(encoded@.subrange(0, i as int) =~= encoded@);
    callsign
}

/// The altitude in feet that the fields of an altitude code give. `l` is the
/// part before the Q bit, `r` the four bits after it; together they count
/// steps of 25 ft where Q is set and of 100 ft where it is not, from 1000 ft
/// below zero. `None` where the product or the difference leaves 16 bits.
pub open spec fn altitude_feet(l: u8, q: bool, r: u8) -> Option<u16> {
    let steps = 16 * (l as int) + (r as int);
    let feet = steps * (if q { 25int } else { 100int });
    if 1000 <= feet <= 65535 {
        Some((feet - 1000) as u16)
    } else {
        None
    }
}

/// Computes [`altitude_feet`] with checked arithmetic.
pub fn decode_altitude(l: u8, q: bool, r: u8) -> (altitude: Option<u16>)
    ensures
        altitude == altitude_feet(l, q, r),
{
    let steps: u32 = 16 * (l as u32) + (r as u32);
    let feet: u32 = if q { steps * 25 } else { steps * 100 };
    if 1000 <= feet && feet <= 65535 {
        Some((feet - 1000) as u16)
    } else {
        None
    }
}

/// A velocity component in knots: the magnitude field less one, negated where
/// the sign bit is set.
pub open spec fn signed_velocity(negative: bool, magnitude: u16) -> int {
    if negative {
        -(magnitude - 1)
    } else {
        magnitude - 1
    }
}

/// Computes [`signed_velocity`] for a 10-bit magnitude.
pub fn decode_velocity(negative: bool, magnitude: u16) -> (v: i16)
    requires
        magnitude < 1024,
    ensures
        v == signed_velocity(negative, magnitude),
{
    let m: i16 = magnitude as i16 - 1;
    if negative {
        -m
    } else {
        m
    }
}

/// The vertical rate in feet per minute: the magnitude field less one, in
/// steps of 64, negated where the sign bit is set. `None` for the magnitude 0,
/// which has nothing to subtract from.
pub open spec fn vertical_rate_fpm(negative: bool, magnitude: u16) -> Option<int> {
    if magnitude == 0 {
        None
    } else if negative {
        Some(-(64 * (magnitude - 1)))
    } else {
        Some(64 * (magnitude - 1))
    }
}

/// Computes [`vertical_rate_fpm`] for a 9-bit magnitude.
pub fn decode_vertical_rate(negative: bool, magnitude: u16) -> (rate: Option<i16>)
    requires
        magnitude < 512,
    ensures
        match rate {
            Some(v) => vertical_rate_fpm(negative, magnitude) == Some(v as int),
            None => vertical_rate_fpm(negative, magnitude).is_none(),
        },
{
    if magnitude == 0 {
        return None;
    }
    let v: i16 = ((magnitude - 1) * 64) as i16;
    if negative {
        Some(-v)
    } else {
        Some(v)
    }
}

} // verus!
