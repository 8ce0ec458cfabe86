//! Length-prefixed runs of bytes, and the two readings of such a run that
//! meta events need: as text and as a number.

use super::error::ParseError;
use super::quantity::{decode_u28, U28};
use super::reader::{decode_bytes, done, failed, ByteReader, Decoded};
use vstd::prelude::*;

verus! {

/// A run of bytes that stood in the input behind its own length.
#[derive(Debug)]
pub struct Slice(pub Vec<u8>);

impl View for Slice {
    type V = Seq<u8>;

    open spec fn view(&self) -> Seq<u8> {
        self.0@
    }
}

/// A length as a variable-length quantity, then that many bytes.
pub open spec fn decode_slice(s: Seq<u8>) -> Decoded<Seq<u8>> {
    match decode_u28(s) {
        Ok((len, rest)) => decode_bytes(rest, len.0 as nat),
        Err(e) => Err(e),
    }
}

/// The number that the bytes of `s` spell in base 256, the most significant
/// first.
pub open spec fn big_endian(s: Seq<u8>) -> nat
    decreases s.len(),
{
    if s.len() == 0 {
        0
    } else {
        big_endian(s.drop_last()) * 0x100 + s.last() as nat
    }
}

/// The number that one byte and that two bytes spell.
pub proof fn lemma_big_endian_short(s: Seq<u8>)
    ensures
        s.len() == 0 ==> big_endian(s) == 0,
        s.len() == 1 ==> big_endian(s) == s[0],
        s.len() == 2 ==> big_endian(s) == s[0] * 0x100 + s[1],
    decreases s.len(),
{
    if s.len() > 0 {
        lemma_big_endian_short(s.drop_last());
    }
}

/// The number that starts `s`: of up to four bytes all of them, of more the
/// first four, read as big-endian.
pub open spec fn leading_number(s: Seq<u8>) -> nat {
    big_endian(
        s.take(
            if s.len() < 4 {
                s.len() as int
            } else {
                4
            },
        ),
    )
}

/// The digit `n`, below 16, in lower-case hexadecimal: `0` to `9` from
/// 0x30 on, `a` to `f` from 0x61 on.
pub open spec fn hex_digit(n: u8) -> char {
    if n < 10 {
        (0x30 + n) as char
    } else {
        (0x61 + (n - 10)) as char
    }
}

/// How one byte is shown in text: tab, carriage return, line feed,
/// backslash and both quotes as a backslash and a letter or the sign
/// itself, the other printable ASCII bytes as themselves, and every other
/// byte as `\x` and two hexadecimal digits.
pub open spec fn escape_byte(b: u8) -> Seq<char> {
    if b == 0x09 {
        seq!['\\', 't']
    } else if b == 0x0D {
        seq!['\\', 'r']
    } else if b == 0x0A {
        seq!['\\', 'n']
    } else if b == 0x5C {
        seq!['\\', '\\']
    } else if b == 0x27 {
        seq!['\\', '\'']
    } else if b == 0x22 {
        seq!['\\', '"']
    } else if 0x20 <= b <= 0x7E {
        seq![b as char]
    } else {
        seq!['\\', 'x', hex_digit(b / 16), hex_digit(b % 16)]
    }
}

/// The text that shows the bytes of `s`, each escaped by itself.
pub open spec fn escape_bytes(s: Seq<u8>) -> Seq<char>
    decreases s.len(),
{
    if s.len() == 0 {
        Seq::empty()
    } else {
        escape_bytes(s.drop_last()) + escape_byte(s.last())
    }
}

/// Whether `c` is a printable ASCII character.
pub open spec fn prints(c: char) -> bool {
    0x20 <= c as u32 <= 0x7E
}

/// Escaped text is printable ASCII throughout.
pub proof fn lemma_escaped_text_prints(s: Seq<u8>)
    ensures
        forall|i: int| 0 <= i < escape_bytes(s).len() ==> prints(#[trigger] escape_bytes(s)[i]),
    decreases s.len(),
{
    if s.len() > 0 {
        lemma_escaped_text_prints(s.drop_last());
        let head = escape_bytes(s.drop_last());
        let shown = escape_byte(s.last());
        assert(forall|i: int| 0 <= i < shown.len() ==> prints(#[trigger] shown[i]));
        assert forall|i: int| 0 <= i < escape_bytes(s).len() implies prints(
            #[trigger] escape_bytes(s)[i],
        ) by {
            if i < head.len() {
                assert(escape_bytes(s)[i] == head[i]);
            } else {
                assert(escape_bytes(s)[i] == shown[i - head.len()]);
            }
        }
    }
}

/// Taken on trust of the standard library, and proved nowhere here:
/// `String::push` puts the character `ch` behind the last character of the
/// string and leaves the characters before it as they were.
pub assume_specification[ String::push ](s: &mut String, ch: char)
    ensures
        final(s)@ == old(s)@.push(ch),
;

fn hexify(n: u8) -> (c: char)
    requires
        n < 16,
    ensures
        c == hex_digit(n),
{
    if n < 10 {
        (0x30 + n) as char
    } else {
        (0x61 + (n - 10)) as char
    }
}

impl Slice {
    /// Reads a length and the bytes it announces.
    pub fn read(buf: &mut ByteReader) -> (r: Result<Slice, ParseError>)
        ensures
            final(buf).follows(*old(buf)),
            match r {
                Ok(v) => decode_slice(old(buf)@) == done(v@, final(buf)@),
                Err(e) => decode_slice(old(buf)@) == failed::<Seq<u8>>(e, final(buf)@),
            },
    {
        let data_len = U28::read(buf)?;
        let run = buf.read_bytes(data_len.0 as usize)?;
        Ok(Slice(run))
    }

    /// The bytes as text, with everything but printable ASCII escaped.
    pub fn to_ascii(self) -> (text: String)
        ensures
            text@ == escape_bytes(self@),
            forall|i: int| 0 <= i < text@.len() ==> prints(#[trigger] text@[i]),
    {
        let bytes = self.0;
        let mut text = String::new();
        let mut i: usize = 0;
        while i < bytes.len()
            invariant
                i <= bytes.len(),
                text@ == escape_bytes(bytes@.take(i as int)),
            decreases bytes.len() - i,
        {
            let c = bytes[i];
            proof {
                assert(bytes@.take(i + 1).drop_last() == bytes@.take(i as int));
            }
            if c == 0x09 {
                text.push('\\');
                text.push('t');
            } else if c == 0x0D {
                text.push('\\');
                text.push('r');
            } else if c == 0x0A {
                text.push('\\');
                text.push('n');
            } else if c == 0x5C {
                text.push('\\');
                text.push('\\');
            } else if c == 0x27 {
                text.push('\\');
                text.push('\'');
            } else if c == 0x22 {
                text.push('\\');
                text.push('"');
            } else if 0x20 <= c && c <= 0x7E {
                text.push(c as char);
            } else {
                let high: u8 = c >> 4;
                let low: u8 = c & 0xF;
                assert(high == c / 16 && low == c % 16) by (bit_vector)
                    requires
                        high == c >> 4,
                        low == c & 0xF,
                ;
                text.push('\\');
                text.push('x');
                text.push(hexify(high));
                text.push(hexify(low));
            }
            i = i + 1;
        }
        proof {
            assert(bytes@.take(i as int) == bytes@);
            lemma_escaped_text_prints(bytes@);
        }
        text
    }

    /// The bytes as a big-endian number; of more than four bytes, the first
    /// four.
    pub fn to_u32(self) -> (num: u32)
        ensures
            num == leading_number(self@),
    {
        let nums = self.0;
        let mut num: u32 = 0;
        let mut i: usize = 0;
        while i < 4 && i < nums.len()
            invariant
                i <= 4,
                i <= nums.len(),
                num == big_endian(nums@.take(i as int)),
                i == 0 ==> num == 0,
                i == 1 ==> num < 0x100,
                i == 2 ==> num < 0x1_0000,
                i == 3 ==> num < 0x100_0000,
            decreases 4 - i,
        {
            proof {
                assert(nums@.take(i + 1).drop_last() == nums@.take(i as int));
            }
            let shifted: u32 = num << 8;
            assert(shifted == num * 0x100) by (bit_vector)
                requires
                    shifted == num << 8,
                    num < 0x100_0000,
            ;
            num = shifted + nums[i] as u32;
            i = i + 1;
        }
        num
    }
}

} // verus!
