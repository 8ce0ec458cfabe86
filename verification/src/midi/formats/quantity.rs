//! The numbers of a track: 7-bit data bytes, the 14-bit pitch-bend value and
//! variable-length quantities.

use super::error::{IoFailure, ParseError};
use super::reader::{decode_u8, done, failed, truncated, ByteReader, Decoded};
use vstd::prelude::*;

verus! {

/// A data byte: a number below 0x80.
#[derive(Debug, Clone, Copy, PartialEq, Eq)]
pub struct U7(pub u8);

/// A pitch-bend value: 14 bits, sent as two bytes of seven bits each, the
/// less significant first.
#[derive(Debug, Clone, Copy, PartialEq, Eq)]
pub struct U14(pub u16);

/// A variable-length quantity: up to 28 bits, sent as up to four bytes of
/// seven bits each, the most significant first, every byte but the last
/// marked by its top bit.
#[derive(Debug, Clone, Copy, PartialEq, Eq)]
pub struct U28(pub u32);

/// The number whose digits in base 128, the most significant first, are the
/// low seven bits of each byte of `s`.
pub open spec fn septets(s: Seq<u8>) -> nat
    decreases s.len(),
{
    if s.len() == 0 {
        0
    } else {
        septets(s.drop_last()) * 0x80 + (s.last() % 0x80) as nat
    }
}

/// How many bytes the variable-length quantity at the start of `s` takes: it
/// ends with the first byte below 0x80, and with the fourth byte in any case.
pub open spec fn vlq_width(s: Seq<u8>) -> nat {
    if s.len() >= 1 && s[0] < 0x80 {
        1
    } else if s.len() >= 2 && s[1] < 0x80 {
        2
    } else if s.len() >= 3 && s[2] < 0x80 {
        3
    } else {
        4
    }
}

/// A data byte: one byte, which must be below 0x80.  A byte that is refused
/// has been read all the same.
pub open spec fn decode_u7(s: Seq<u8>) -> Decoded<U7> {
    match decode_u8(s) {
        Ok((b, rest)) => if b >= 0x80 {
            Err((ParseError::NotData(b), rest))
        } else {
            Ok((U7(b), rest))
        },
        Err(e) => Err(e),
    }
}

/// A pitch-bend value: two bytes, of which the first gives bits 0 to 6 and
/// the second bits 7 to 13.  The top bit of either byte is ignored.  Where
/// fewer than two bytes are left, none is read.
pub open spec fn decode_u14(s: Seq<u8>) -> Decoded<U14> {
    if s.len() >= 2 {
        Ok((U14(((s[1] % 0x80) * 0x80 + s[0] % 0x80) as u16), s.skip(2)))
    } else {
        Err((truncated(), s))
    }
}

/// A variable-length quantity.  Where the input ends before the quantity
/// does, every byte of it has been read.
pub open spec fn decode_u28(s: Seq<u8>) -> Decoded<U28> {
    let n = vlq_width(s);
    if s.len() >= n {
        Ok((U28(septets(s.take(n as int)) as u32), s.skip(n as int)))
    } else {
        Err((truncated(), s.skip(s.len() as int)))
    }
}

/// Up to four septets make a number below 2^28, and one more septet extends
/// a number as one more digit does.
pub proof fn lemma_septets(s: Seq<u8>)
    ensures
        s.len() == 0 ==> septets(s) == 0,
        s.len() == 1 ==> septets(s) == s[0] % 0x80,
        s.len() == 2 ==> septets(s) == (s[0] % 0x80) * 0x80 + s[1] % 0x80,
        s.len() == 3 ==> septets(s) == ((s[0] % 0x80) * 0x80 + s[1] % 0x80) * 0x80 + s[2] % 0x80,
        s.len() == 4 ==> septets(s) == (((s[0] % 0x80) * 0x80 + s[1] % 0x80) * 0x80 + s[2]
            % 0x80) * 0x80 + s[3] % 0x80,
        s.len() <= 4 ==> septets(s) < 0x1000_0000,
    decreases s.len(),
{
    if s.len() > 0 {
        lemma_septets(s.drop_last());
    }
}

impl U7 {
    /// Reads a data byte.
    pub fn read(buf: &mut ByteReader) -> (r: Result<U7, ParseError>)
        ensures
            final(buf).follows(*old(buf)),
            match r {
                Ok(v) => decode_u7(old(buf)@) == done(v, final(buf)@) && v.0 < 0x80,
                Err(e) => decode_u7(old(buf)@) == failed::<U7>(e, final(buf)@) && (e is IOError
                    ==> *final(buf) == *old(buf)),
            },
    {
        let b = buf.read_u8()?;
        if b >= 0x80 {
            Err(ParseError::NotData(b))
        } else {
            Ok(U7(b))
        }
    }
}

impl U14 {
    /// Reads a pitch-bend value.
    pub fn read(buf: &mut ByteReader) -> (r: Result<U14, ParseError>)
        ensures
            final(buf).follows(*old(buf)),
            match r {
                Ok(v) => decode_u14(old(buf)@) == done(v, final(buf)@) && v.0 < 0x4000,
                Err(e) => decode_u14(old(buf)@) == failed::<U14>(e, final(buf)@) && *final(buf)
                    == *old(buf),
            },
    {
        if buf.remaining() < 2 {
            return Err(ParseError::IOError(IoFailure::Truncated));
        }
        let low = buf.read_u8()?;
        let high = buf.read_u8()?;
        let low7: u8 = low & 0x7F;
        let high7: u8 = high & 0x7F;
        assert(low7 == low % 0x80 && high7 == high % 0x80) by (bit_vector)
            requires
                low7 == low & 0x7F,
                high7 == high & 0x7F,
        ;
        assert(old(buf)@.skip(1).skip(1) == old(buf)@.skip(2));
        let upper: u16 = (high7 as u16) << 7;
        assert(upper == high7 * 0x80) by (bit_vector)
            requires
                upper == (high7 as u16) << 7,
                high7 < 0x80,
        ;
        Ok(U14(upper + low7 as u16))
    }
}

impl U28 {
    /// Reads a variable-length quantity.
    pub fn read(buf: &mut ByteReader) -> (r: Result<U28, ParseError>)
        ensures
            final(buf).follows(*old(buf)),
            match r {
                Ok(v) => decode_u28(old(buf)@) == done(v, final(buf)@) && v.0 < 0x1000_0000,
                Err(e) => decode_u28(old(buf)@) == failed::<U28>(e, final(buf)@),
            },
    {
        let ghost s = buf@;
        let mut inner: u32 = 0;
        let mut taken: usize = 0;
        let mut last = false;
        while taken < 4 && !last
            invariant
                s == old(buf)@,
                buf.follows(*old(buf)),
                taken <= 4,
                taken <= s.len(),
                buf@ == s.skip(taken as int),
                inner == septets(s.take(taken as int)),
                forall|j: int| 0 <= j < taken - 1 ==> s[j] >= 0x80,
                taken > 0 ==> (last <==> s[taken - 1] < 0x80),
                taken == 0 ==> !last,
            decreases 4 - taken,
        {
            let byte = buf.read_u8()?;
            proof {
                lemma_septets(s.take(taken as int));
                assert(s.take(taken + 1).drop_last() == s.take(taken as int));
                assert(s.skip(taken as int).skip(1) == s.skip(taken + 1));
            }
            let shifted: u32 = inner << 7;
            assert(shifted == inner * 0x80) by (bit_vector)
                requires
                    shifted == inner << 7,
                    inner < 0x20_0000,
            ;
            let low7: u8 = byte & 0x7F;
            assert(low7 == byte % 0x80) by (bit_vector)
                requires
                    low7 == byte & 0x7F,
            ;
            inner = shifted + low7 as u32;
            last = byte < 0x80;
            taken = taken + 1;
        }
        proof {
            assert(vlq_width(s) == taken);
            lemma_septets(s.take(taken as int));
        }
        Ok(U28(inner))
    }
}

} // verus!
