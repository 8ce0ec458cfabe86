//! A cursor over the bytes being decoded, and the fixed-width integers read
//! from it.
//!
//! Decoding is specified on byte sequences: a `decode_*` function takes the
//! bytes not yet read and gives either the value that stands at their start
//! together with the bytes that follow it, or the failure together with the
//! bytes that are left unread when it is met.  The reading methods compute
//! these functions on the reader's unread bytes.  A read of a fixed number
//! of bytes that finds too few of them reads none.

use super::error::{IoFailure, ParseError};
use vstd::prelude::*;
use vstd::slice::slice_subrange;
use vstd::slice::slice_to_vec;

verus! {

/// What a decoder makes of bytes: the value that stands at their start with
/// the bytes behind it, or the failure with the bytes that are left unread
/// when it is met.
pub type Decoded<T> = Result<(T, Seq<u8>), (ParseError, Seq<u8>)>;

/// Decoding gave `value` and left `rest`.
pub open spec fn done<T>(value: T, rest: Seq<u8>) -> Decoded<T> {
    Ok((value, rest))
}

/// Decoding failed with `error` and left `rest` unread.
pub open spec fn failed<T>(error: ParseError, rest: Seq<u8>) -> Decoded<T> {
    Err((error, rest))
}

/// The value that decoding gave; it says nothing where decoding failed.
pub open spec fn value<T>(decoded: Decoded<T>) -> T {
    decoded->Ok_0.0
}

/// The failure of a read that finds fewer bytes than it needs.
pub open spec fn truncated() -> ParseError {
    ParseError::IOError(IoFailure::Truncated)
}

/// The signed value of a 16-bit pattern in two's complement.
pub open spec fn signed16(pattern: int) -> int {
    if pattern >= 0x8000 {
        pattern - 0x1_0000
    } else {
        pattern
    }
}

/// One byte.
pub open spec fn decode_u8(s: Seq<u8>) -> Decoded<u8> {
    if s.len() >= 1 {
        Ok((s[0], s.skip(1)))
    } else {
        Err((truncated(), s))
    }
}

/// Two bytes, the more significant first.
pub open spec fn decode_u16(s: Seq<u8>) -> Decoded<u16> {
    if s.len() >= 2 {
        Ok(((s[0] as int * 0x100 + s[1] as int) as u16, s.skip(2)))
    } else {
        Err((truncated(), s))
    }
}

/// Two bytes, the more significant first, as a signed number.
pub open spec fn decode_i16(s: Seq<u8>) -> Decoded<i16> {
    if s.len() >= 2 {
        Ok((signed16(s[0] as int * 0x100 + s[1] as int) as i16, s.skip(2)))
    } else {
        Err((truncated(), s))
    }
}

/// Four bytes, the most significant first.
pub open spec fn decode_u32(s: Seq<u8>) -> Decoded<u32> {
    if s.len() >= 4 {
        Ok(
            (
                (((s[0] as int * 0x100 + s[1] as int) * 0x100 + s[2] as int) * 0x100
                    + s[3] as int) as u32,
                s.skip(4),
            ),
        )
    } else {
        Err((truncated(), s))
    }
}

/// A run of `n` bytes, taken as they stand.
pub open spec fn decode_bytes(s: Seq<u8>, n: nat) -> Decoded<Seq<u8>> {
    if s.len() >= n {
        Ok((s.take(n as int), s.skip(n as int)))
    } else {
        Err((truncated(), s))
    }
}

/// A forward-only cursor over a byte slice.
pub struct ByteReader<'a> {
    data: &'a [u8],
    pos: usize,
}

impl<'a> View for ByteReader<'a> {
    type V = Seq<u8>;

    /// The bytes that have not been read yet: the input from the position
    /// on.  The position never lies beyond the input.
    open spec fn view(&self) -> Seq<u8> {
        if self.position() <= self.source().len() {
            self.source().skip(self.position() as int)
        } else {
            Seq::empty()
        }
    }
}

impl<'a> ByteReader<'a> {
    #[verifier::type_invariant]
    spec fn inv(self) -> bool {
        self.pos <= self.data@.len()
    }

    /// The whole input, read and unread.
    pub closed spec fn source(self) -> Seq<u8> {
        self.data@
    }

    /// How many bytes of the input have been read.
    pub closed spec fn position(self) -> nat {
        self.pos as nat
    }

    /// A reader only ever moves forward, over the same input.
    pub open spec fn follows(self, before: Self) -> bool {
        &&& self.source() == before.source()
        &&& before.position() <= self.position()
    }

    /// A reader at the start of `bytes`.
    pub fn new(bytes: &'a [u8]) -> (r: Self)
        ensures
            r@ == bytes@,
            r.source() == bytes@,
            r.position() == 0,
    {
        ByteReader { data: bytes, pos: 0 }
    }

    /// Whether every byte has been read.
    pub fn is_empty(&self) -> (r: bool)
        ensures
            r == (self@.len() == 0),
    {
        proof {
            use_type_invariant(self);
        }
        self.pos >= self.data.len()
    }

    /// The number of bytes not yet read.
    pub fn remaining(&self) -> (n: usize)
        ensures
            n == self@.len(),
    {
        proof {
            use_type_invariant(self);
        }
        self.data.len() - self.pos
    }

    /// The next byte, which stays unread; `None` at the end of the input.
    pub fn peek(&self) -> (r: Option<u8>)
        ensures
            r == (if self@.len() > 0 {
                Some(self@[0])
            } else {
                None
            }),
    {
        proof {
            use_type_invariant(self);
        }
        if self.pos < self.data.len() {
            Some(self.data[self.pos])
        } else {
            None
        }
    }

    /// Reads one byte.
    pub fn read_u8(&mut self) -> (r: Result<u8, ParseError>)
        ensures
            final(self).follows(*old(self)),
            match r {
                Ok(v) => decode_u8(old(self)@) == done(v, final(self)@),
                Err(e) => decode_u8(old(self)@) == failed::<u8>(e, final(self)@) && *final(self)
                    == *old(self),
            },
    {
        proof {
            use_type_invariant(&*self);
        }
        if self.pos < self.data.len() {
            let b = self.data[self.pos];
            self.pos = self.pos + 1;
            assert(final(self)@ == old(self)@.skip(1));
            Ok(b)
        } else {
            Err(ParseError::IOError(IoFailure::Truncated))
        }
    }

    /// Reads a big-endian unsigned 16-bit number.
    pub fn read_u16(&mut self) -> (r: Result<u16, ParseError>)
        ensures
            final(self).follows(*old(self)),
            match r {
                Ok(v) => decode_u16(old(self)@) == done(v, final(self)@),
                Err(e) => decode_u16(old(self)@) == failed::<u16>(e, final(self)@) && *final(self)
                    == *old(self),
            },
    {
        proof {
            use_type_invariant(&*self);
        }
        if self.data.len() - self.pos >= 2 {
            let hi = self.data[self.pos] as u16;
            let lo = self.data[self.pos + 1] as u16;
            self.pos = self.pos + 2;
            assert(final(self)@ == old(self)@.skip(2));
            Ok(hi * 0x100 + lo)
        } else {
            Err(ParseError::IOError(IoFailure::Truncated))
        }
    }

    /// Reads a big-endian signed 16-bit number.
    pub fn read_i16(&mut self) -> (r: Result<i16, ParseError>)
        ensures
            final(self).follows(*old(self)),
            match r {
                Ok(v) => decode_i16(old(self)@) == done(v, final(self)@),
                Err(e) => decode_i16(old(self)@) == failed::<i16>(e, final(self)@) && *final(self)
                    == *old(self),
            },
    {
        proof {
            use_type_invariant(&*self);
        }
        if self.data.len() - self.pos >= 2 {
            let hi = self.data[self.pos] as i32;
            let lo = self.data[self.pos + 1] as i32;
            self.pos = self.pos + 2;
            assert(final(self)@ == old(self)@.skip(2));
            let pattern: i32 = hi * 0x100 + lo;
            if pattern >= 0x8000 {
                Ok((pattern - 0x1_0000) as i16)
            } else {
                Ok(pattern as i16)
            }
        } else {
            Err(ParseError::IOError(IoFailure::Truncated))
        }
    }

    /// Reads a big-endian unsigned 32-bit number.
    pub fn read_u32(&mut self) -> (r: Result<u32, ParseError>)
        ensures
            final(self).follows(*old(self)),
            match r {
                Ok(v) => decode_u32(old(self)@) == done(v, final(self)@),
                Err(e) => decode_u32(old(self)@) == failed::<u32>(e, final(self)@) && *final(self)
                    == *old(self),
            },
    {
        proof {
            use_type_invariant(&*self);
        }
        if self.data.len() - self.pos >= 4 {
            let b0 = self.data[self.pos] as u32;
            let b1 = self.data[self.pos + 1] as u32;
            let b2 = self.data[self.pos + 2] as u32;
            let b3 = self.data[self.pos + 3] as u32;
            self.pos = self.pos + 4;
            assert(final(self)@ == old(self)@.skip(4));
            Ok(((b0 * 0x100 + b1) * 0x100 + b2) * 0x100 + b3)
        } else {
            Err(ParseError::IOError(IoFailure::Truncated))
        }
    }

    /// Reads the next `n` bytes as they stand.
    pub fn read_bytes(&mut self, n: usize) -> (r: Result<Vec<u8>, ParseError>)
        ensures
            final(self).follows(*old(self)),
            match r {
                Ok(v) => decode_bytes(old(self)@, n as nat) == done(v@, final(self)@),
                Err(e) => decode_bytes(old(self)@, n as nat) == failed::<Seq<u8>>(
                    e,
                    final(self)@,
                ) && *final(self) == *old(self),
            },
    {
        proof {
            use_type_invariant(&*self);
        }
        if self.data.len() - self.pos >= n {
            let run = slice_to_vec(slice_subrange(self.data, self.pos, self.pos + n));
            self.pos = self.pos + n;
            assert(final(self)@ == old(self)@.skip(n as int));
            assert(run@ == old(self)@.take(n as int));
            Ok(run)
        } else {
            Err(ParseError::IOError(IoFailure::Truncated))
        }
    }
}

} // verus!
