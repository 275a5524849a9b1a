//! A positioned bit-level reader over a byte slice.

use vstd::prelude::*;
use vstd::arithmetic::power2::{
    lemma2_to64, lemma2_to64_rest, lemma_pow2_strictly_increases, lemma_pow2_unfold, pow2,
};
use crate::types::{ErrorKind, ParserError};

verus! {

/// Bit `i` of `data`, counting from the most significant bit of the first byte.
pub open spec fn bit_at(data: Seq<u8>, i: int) -> nat {
    ((data[i / 8] >> ((7 - i % 8) as u8)) & 1u8) as nat
}

/// The unsigned number written in the `n` bits of `data` that start at bit
/// `start`, most significant bit first.
pub open spec fn bits_value(data: Seq<u8>, start: int, n: nat) -> nat
    decreases n,
{
    if n == 0 {
        0
    } else {
        2 * bits_value(data, start, (n - 1) as nat) + bit_at(data, start + n - 1)
    }
}

/// A field of `n` bits is below 2^n.
pub proof fn lemma_bits_value_bound(data: Seq<u8>, start: int, n: nat)
    ensures
        bits_value(data, start, n) < pow2(n),
    decreases n,
{
    if n == 0 {
        lemma2_to64();
    } else {
        lemma_pow2_unfold(n);
        lemma_bits_value_bound(data, start, (n - 1) as nat);
        lemma_single_bit(data[(start + n - 1) / 8], (7 - (start + n - 1) % 8) as u8);
    }
}

/// One bit of a byte, moved to the lowest place, is 0 or 1.
pub proof fn lemma_single_bit(b: u8, s: u8)
    ensures
        (b >> s) & 1u8 <= 1u8,
{
    assert((b >> s) & 1u8 <= 1u8) by (bit_vector);
}

/// A position in a byte slice, with bit granularity. Reading never changes
/// the slice; it yields a value and the cursor behind it.
#[derive(Debug, Clone, Copy)]
pub struct BitCursor<'a> {
    /// The whole buffer that is being read.
    data: &'a [u8],
    /// Index of the byte that holds the next bit.
    byte: usize,
    /// Index of the next bit inside that byte, 0 for the most significant.
    bit: u8,
}

impl<'a> BitCursor<'a> {
    /// The cursor lies inside its buffer, or just behind its last bit.
    #[verifier::type_invariant]
    spec fn in_buffer(&self) -> bool {
        &&& self.byte <= self.data@.len()
        &&& self.bit < 8
        &&& self.byte == self.data@.len() ==> self.bit == 0
    }

    /// The whole buffer that is being read.
    pub closed spec fn bytes(&self) -> Seq<u8> {
        self.data@
    }

    /// Number of bits before the cursor.
    pub closed spec fn position(&self) -> int {
        8 * self.byte + self.bit
    }

    /// Number of bits from the cursor to the end of the buffer.
    pub open spec fn remaining(&self) -> int {
        8 * self.bytes().len() - self.position()
    }

    /// A cursor at the first bit of `data`.
    pub fn new(data: &'a [u8]) -> (c: BitCursor<'a>)
        ensures
            c.bytes() == data@,
            c.position() == 0,
    {
        BitCursor { data, byte: 0, bit: 0 }
    }

    /// Index of the byte that holds the next bit, and index of that bit inside
    /// the byte, 0 for the most significant. The first is the length of the
    /// buffer where no bit is left.
    pub fn offset(&self) -> (at: (usize, u8))
        ensures
            8 * at.0 + at.1 == self.position(),
            at.1 < 8,
            0 <= self.position() <= 8 * self.bytes().len(),
    {
        proof {
            use_type_invariant(self);
        }
        (self.byte, self.bit)
    }

    /// Whether at least `n` bits are left.
    pub fn has(&self, n: u8) -> (b: bool)
        ensures
            b == (n <= self.remaining()),
            0 <= self.position() <= 8 * self.bytes().len(),
    {
        proof {
            use_type_invariant(self);
        }
        let need: usize = (self.bit as usize + n as usize + 7) / 8;
        need <= self.data.len() - self.byte
    }

    /// Reads `n` bits without moving.
    pub fn peek(&self, n: u8) -> (r: Result<u32, ParserError>)
        requires
            n <= 32,
        ensures
            match r {
                Ok(v) => {
                    &&& n <= self.remaining()
                    &&& v == bits_value(self.bytes(), self.position(), n as nat)
                    &&& v < pow2(n as nat)
                },
                Err(e) => n > self.remaining() && e.kind == ErrorKind::Truncated,
            },
    {
        proof {
            use_type_invariant(self);
        }
        if !self.has(n) {
            return Err(ParserError::new(ErrorKind::Truncated));
        }
        let mut acc: u64 = 0;
        let mut byte: usize = self.byte;
        let mut bit: u8 = self.bit;
        let mut i: u8 = 0;
        proof {
            lemma2_to64();
        }
        while i < n
            invariant
                self.in_buffer(),
                n <= 32,
                n <= self.remaining(),
                i <= n,
                bit < 8,
                8 * byte + bit == self.position() + i,
                acc == bits_value(self.bytes(), self.position(), i as nat),
                acc < pow2(i as nat),
            decreases n - i,
        {
            let b: u8 = (self.data[byte] >> (7 - bit)) & 1;
            proof {
                let p = self.position() + i;
                assert(p / 8 == byte && p % 8 == bit);
                assert(b as nat == bit_at(self.data@, p));
                lemma_pow2_unfold((i + 1) as nat);
                lemma_pow2_strictly_increases((i + 1) as nat, 33);
                lemma2_to64_rest();
                lemma_single_bit(self.data@[byte as int], (7 - bit) as u8);
            }
            acc = 2 * acc + b as u64;
            if bit == 7 {
                bit = 0;
                byte = byte + 1;
            } else {
                bit = bit + 1;
            }
            i = i + 1;
        }
        proof {
            lemma_pow2_strictly_increases(n as nat, 33);
            lemma2_to64_rest();
        }
        Ok(acc as u32)
    }

    /// The cursor `n` bits further on.
    pub fn skip(&self, n: u8) -> (r: Result<BitCursor<'a>, ParserError>)
        ensures
            match r {
                Ok(next) => n <= self.remaining() && self.moved_to(next, n as int),
                Err(e) => n > self.remaining() && e.kind == ErrorKind::Truncated,
            },
    {
        proof {
            use_type_invariant(self);
        }
        if !self.has(n) {
            return Err(ParserError::new(ErrorKind::Truncated));
        }
        let total: usize = self.bit as usize + n as usize;
        let len: usize = self.data.len();
        assert(self.byte + total / 8 <= len);
        Ok(BitCursor { data: self.data, byte: self.byte + total / 8, bit: (total % 8) as u8 })
    }

    /// `next` reads the same buffer, `n` bits behind `self`.
    pub open spec fn moved_to(&self, next: BitCursor<'a>, n: int) -> bool {
        &&& next.bytes() == self.bytes()
        &&& next.position() == self.position() + n
    }

    /// Consumes `n` bits and returns them as a right-aligned unsigned number,
    /// with the advanced cursor.
    pub fn take(&self, n: u8) -> (r: Result<(u32, BitCursor<'a>), ParserError>)
        requires
            n <= 32,
        ensures
            match r {
                Ok((v, next)) => {
                    &&& n <= self.remaining()
                    &&& v == bits_value(self.bytes(), self.position(), n as nat)
                    &&& v < pow2(n as nat)
                    &&& self.moved_to(next, n as int)
                },
                Err(e) => n > self.remaining() && e.kind == ErrorKind::Truncated,
            },
    {
        match self.peek(n) {
            Ok(v) => match self.skip(n) {
                Ok(next) => Ok((v, next)),
                Err(e) => Err(e),
            },
            Err(e) => Err(e),
        }
    }

    /// Consumes `n` bits, which must spell `expected`.
    pub fn tag(&self, n: u8, expected: u32) -> (r: Result<(u32, BitCursor<'a>), ParserError>)
        requires
            n <= 32,
        ensures
            match r {
                Ok((v, next)) => {
                    &&& n <= self.remaining()
                    &&& v == expected
                    &&& v == bits_value(self.bytes(), self.position(), n as nat)
                    &&& v < pow2(n as nat)
                    &&& self.moved_to(next, n as int)
                },
                Err(e) => if n > self.remaining() {
                    e.kind == ErrorKind::Truncated
                } else {
                    &&& bits_value(self.bytes(), self.position(), n as nat) != expected
                    &&& e.kind == ErrorKind::UnexpectedValue
                },
            },
    {
        match self.take(n) {
            Ok((v, next)) => if v == expected {
                Ok((v, next))
            } else {
                Err(ParserError::new(ErrorKind::UnexpectedValue))
            },
            Err(e) => Err(e),
        }
    }

    /// Consumes `n` bits, which must satisfy `predicate`.
    pub fn verify<F: Fn(u32) -> bool>(&self, n: u8, predicate: F) -> (r: Result<
        (u32, BitCursor<'a>),
        ParserError,
    >)
        requires
            n <= 32,
            forall|v: u32| predicate.requires((v,)),
        ensures
            match r {
                Ok((v, next)) => {
                    &&& n <= self.remaining()
                    &&& v == bits_value(self.bytes(), self.position(), n as nat)
                    &&& v < pow2(n as nat)
                    &&& predicate.ensures((v,), true)
                    &&& self.moved_to(next, n as int)
                },
                Err(e) => if n > self.remaining() {
                    e.kind == ErrorKind::Truncated
                } else {
                    &&& predicate.ensures(
                        (bits_value(self.bytes(), self.position(), n as nat) as u32,),
                        false,
                    )
                    &&& e.kind == ErrorKind::ConstraintViolation
                },
            },
    {
        match self.take(n) {
            Ok((v, next)) => if predicate(v) {
                Ok((v, next))
            } else {
                Err(ParserError::new(ErrorKind::ConstraintViolation))
            },
            Err(e) => Err(e),
        }
    }

    /// The bytes that no read has touched: a byte that was read in part is
    /// left out.
    pub fn rest(&self) -> (r: &'a [u8])
        ensures
            r@ == self.bytes().subrange((self.position() + 7) / 8, self.bytes().len() as int),
    {
        proof {
            use_type_invariant(self);
        }
        let len: usize = self.data.len();
        let from: usize = if self.bit == 0 { self.byte } else { self.byte + 1 };
        vstd::slice::slice_subrange(self.data, from, len)
    }

    /// The `len` bytes that start with the byte that holds the next bit, if
    /// the buffer has that many.
    pub fn frame(&self, len: usize) -> (r: Option<&'a [u8]>)
        ensures
            match r {
                Some(f) => {
                    &&& f@.len() == len
                    &&& self.position() / 8 + len <= self.bytes().len()
                    &&& f@ == self.bytes().subrange(
                        self.position() / 8,
                        self.position() / 8 + len,
                    )
                },
                None => self.bytes().len() < self.position() / 8 + len,
            },
    {
        proof {
            use_type_invariant(self);
        }
        if self.data.len() - self.byte < len {
            None
        } else {
            Some(vstd::slice::slice_subrange(self.data, self.byte, self.byte + len))
        }
    }
}

} // verus!
