//! The AVR text framing: `*`, pairs of hexadecimal digits, `;`.

use vstd::prelude::*;
use vstd::string::StringSliceAdditionalSpecFns;
use vstd::utf8::{
    encode_utf8_valid_utf8, is_char_boundary, is_char_boundary_iff_not_is_continuation_byte,
    is_char_boundary_start_end_of_seq, is_continuation_byte, length_of_first_scalar,
    pop_first_scalar, valid_first_scalar, valid_utf8,
};
use crate::parser::{message, parse_message};
use crate::text::{hex_digit_value, hex_value};
use crate::types::{ErrorKind, Message, MessageModel, ParserError};

verus! {

/// Whether a pair of hexadecimal digits stands at byte `at` of `text`.
pub open spec fn hex_pair_at(text: Seq<u8>, at: int) -> bool {
    &&& 0 <= at
    &&& at + 2 <= text.len()
    &&& hex_value(text[at]).is_some()
    &&& hex_value(text[at + 1]).is_some()
}

/// The byte that the pair of hexadecimal digits at `at` spells.
pub open spec fn hex_pair_value(text: Seq<u8>, at: int) -> u8 {
    (16 * hex_value(text[at]).unwrap() + hex_value(text[at + 1]).unwrap()) as u8
}

/// The number of pairs of hexadecimal digits that stand in a row from byte
/// `at` on.
pub open spec fn hex_pairs(text: Seq<u8>, at: int) -> nat
    decreases text.len() - at,
{
    if hex_pair_at(text, at) {
        1 + hex_pairs(text, at + 2)
    } else {
        0
    }
}

/// The frame that a text in AVR format wraps, with the number of bytes of
/// text that it takes: a `*`, as many pairs of hexadecimal digits as there
/// are, each of them one byte of the frame, and a `;`. There is none where
/// the `*` is missing, or where something else than `;` follows the last
/// whole pair, a single digit for one.
pub open spec fn avr_frame(text: Seq<u8>) -> Option<(Seq<u8>, int)> {
    let n = hex_pairs(text, 1);
    let end = 1 + 2 * (n as int);
    if text.len() > end && text[0] == 0x2A && text[end] == 0x3B {
        Some((Seq::new(n, |i: int| hex_pair_value(text, 1 + 2 * i)), end + 1))
    } else {
        None
    }
}

/// In a text, the byte behind an ASCII character starts a character.
proof fn lemma_after_ascii(bytes: Seq<u8>, i: int)
    requires
        valid_utf8(bytes),
        0 <= i,
        i + 1 < bytes.len(),
        bytes[i] < 0x80,
    ensures
        !is_continuation_byte(bytes[i + 1]),
    decreases bytes.len(),
{
    let l = length_of_first_scalar(bytes);
    let rest = pop_first_scalar(bytes);
    assert(valid_first_scalar(bytes) && valid_utf8(rest));
    if i >= l {
        assert(rest[i - l] == bytes[i]);
        assert(rest[i - l + 1] == bytes[i + 1]);
        lemma_after_ascii(rest, i - l);
    } else {
        assert(i == 0 && l == 1);
        assert(rest[0] == bytes[1]);
        assert(valid_first_scalar(rest));
    }
}

/// A text can be cut behind any of its ASCII characters.
proof fn lemma_boundary_after_ascii(bytes: Seq<u8>, i: int)
    requires
        valid_utf8(bytes),
        0 <= i < bytes.len(),
        bytes[i] < 0x80,
    ensures
        is_char_boundary(bytes, i + 1),
{
    if i + 1 < bytes.len() {
        lemma_after_ascii(bytes, i);
        is_char_boundary_iff_not_is_continuation_byte(bytes, i + 1);
    } else {
        is_char_boundary_start_end_of_seq(bytes);
    }
}

/// Unwraps a frame in AVR format. Returns the text behind the frame, and the
/// frame.
pub fn parse_avr_frame(input: &str) -> (r: Result<(&str, Vec<u8>), ParserError>)
    ensures
        match r {
            Ok((rest, frame)) => {
                &&& avr_frame(input.spec_bytes()) matches Some((bytes, end))
                &&& frame@ == bytes
                &&& rest.spec_bytes() == input.spec_bytes().subrange(
                    end,
                    input.spec_bytes().len() as int,
                )
            },
            Err(e) => e.kind == ErrorKind::FramingError && avr_frame(input.spec_bytes()).is_none(),
        },
{
    let text = input.as_bytes();
    let len: usize = text.len();
    if len < 1 || text[0] != 0x2A {
        return Err(ParserError::new(ErrorKind::FramingError));
    }
    let mut frame: Vec<u8> = Vec::new();
    let mut i: usize = 1;
    loop
        invariant
            len == text@.len(),
            1 <= i <= len,
            i == 1 + 2 * frame@.len(),
            hex_pairs(text@, 1) == frame@.len() + hex_pairs(text@, i as int),
            forall|k: int|
                0 <= k < frame@.len() ==> #[trigger] frame@[k] == hex_pair_value(text@, 1 + 2 * k),
        ensures
            hex_pairs(text@, i as int) == 0,
        decreases len - i,
    {
        if len - i < 2 {
            break ;
        }
        match (hex_digit_value(text[i]), hex_digit_value(text[i + 1])) {
            (Some(hi), Some(lo)) => {
                frame.push(16 * hi + lo);
                i = i + 2;
            },
            _ => {
                break ;
            },
        }
    }
    if i >= len || text[i] != 0x3B {
        return Err(ParserError::new(ErrorKind::FramingError));
    }
    proof {
        encode_utf8_valid_utf8(input@);
        lemma_boundary_after_ascii(text@, i as int);
    }
    let (_, rest) = input.split_at(i + 1);
    assert(frame@ =~= avr_frame(text@).unwrap().0);
    Ok((rest, frame))
}

/// What a text in AVR format decodes to: the message in the frame that it
/// wraps.
pub open spec fn avr_message(text: Seq<u8>) -> Result<(MessageModel, int), ErrorKind> {
    match avr_frame(text) {
        None => Err(ErrorKind::FramingError),
        Some((frame, end)) => match message(frame) {
            Ok((m, _)) => Ok((m, end)),
            Err(e) => Err(e),
        },
    }
}

/// Parse message from a string with data in AVR format. Each message should
/// start with a `*` and end with a `;`. If successful, returns a tuple
/// containing the parsed message and a slice of remaining unparsed data.
pub fn parse_avr(data: &str) -> (r: Result<(Message, &str), ParserError>)
    ensures
        match r {
            Ok((m, rest)) => {
                &&& avr_message(data.spec_bytes()) matches Ok((model, end))
                &&& m@ == model
                &&& rest.spec_bytes() == data.spec_bytes().subrange(
                    end,
                    data.spec_bytes().len() as int,
                )
            },
            Err(e) => avr_message(data.spec_bytes()) == Err::<(MessageModel, int), ErrorKind>(
                e.kind,
            ),
        },
{
    let (remaining, frame) = match parse_avr_frame(data) {
        Ok(x) => x,
        Err(e) => { return Err(e); },
    };
    match parse_message(frame.as_slice()) {
        Ok((_, message)) => Ok((message, remaining)),
        Err(e) => Err(e),
    }
}

} // verus!
