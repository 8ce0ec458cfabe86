//! Chunks: the four-byte tag that starts each one, and the header chunk.

use super::error::{IoFailure, ParseError};
use super::reader::{
    decode_i16, decode_u16, decode_u32, done, failed, truncated, ByteReader, Decoded,
};
use vstd::prelude::*;

verus! {

/// What kind of chunk a tag announces.
#[derive(Debug, Clone, Copy, PartialEq, Eq)]
pub enum Tag {
    /// `MThd`
    Header,
    /// `MTrk`
    Track,
}

/// How the tracks of a file relate to each other.
#[derive(Debug, Clone, Copy, PartialEq, Eq)]
pub enum Format {
    /// Format 0: one track.
    SingleTrack,
    /// Format 1: several tracks, played together.
    MultipleTrack,
    /// Format 2: several songs, one after the other.
    MultipleSong,
}

/// The header chunk of a file.
#[derive(Debug)]
pub struct HeaderChunk {
    tag: Tag,
    header_len: u32,
    format: Format,
    track_num: u16,
    /// If positive, pulses per quarter note; else frames per second and
    /// ticks per frame.
    division: i16,
}

/// A [`HeaderChunk`] as a mathematical value.
pub struct HeaderChunkView {
    /// The tag that starts the chunk: the header tag.
    pub tag: Tag,
    /// The length that the chunk declares for itself.
    pub header_len: u32,
    pub format: Format,
    /// The number of tracks that the header declares.
    pub track_num: u16,
    pub division: i16,
}

impl View for HeaderChunk {
    type V = HeaderChunkView;

    closed spec fn view(&self) -> HeaderChunkView {
        HeaderChunkView {
            tag: self.tag,
            header_len: self.header_len,
            format: self.format,
            track_num: self.track_num,
            division: self.division,
        }
    }
}

/// The bytes `MThd`.
pub open spec fn header_tag() -> Seq<u8> {
    seq![0x4D, 0x54, 0x68, 0x64]
}

/// The bytes `MTrk`.
pub open spec fn track_tag() -> Seq<u8> {
    seq![0x4D, 0x54, 0x72, 0x6B]
}

/// The four bytes of a tag.
pub open spec fn tag_bytes(tag: Tag) -> Seq<u8> {
    match tag {
        Tag::Header => header_tag(),
        Tag::Track => track_tag(),
    }
}

/// A tag: four bytes, which must be those of the header tag or of the track
/// tag.  Where no byte is left for the tag the input has ended cleanly;
/// where fewer than four are left, it is cut short, and none of them is
/// read.  Four bytes that are no tag have been read all the same.
pub open spec fn decode_tag(s: Seq<u8>) -> Decoded<Tag> {
    if s.len() == 0 {
        Err((ParseError::IOError(IoFailure::EndOfInput), s))
    } else if s.len() < 4 {
        Err((truncated(), s))
    } else if s.take(4) == header_tag() {
        Ok((Tag::Header, s.skip(4)))
    } else if s.take(4) == track_tag() {
        Ok((Tag::Track, s.skip(4)))
    } else {
        Err((ParseError::UnexpectedTag([s[0], s[1], s[2], s[3]]), s.skip(4)))
    }
}

/// The tag `wanted`, where a chunk of that kind has to start: a tag, which
/// must be that one.  The other tag is as unexpected there as four bytes
/// that are no tag.
pub open spec fn decode_tag_of(wanted: Tag, s: Seq<u8>) -> Decoded<Tag> {
    match decode_tag(s) {
        Ok((tag, rest)) => if tag == wanted {
            Ok((tag, rest))
        } else {
            Err((ParseError::UnexpectedTag([s[0], s[1], s[2], s[3]]), rest))
        },
        Err(e) => Err(e),
    }
}

/// A format: a 16-bit number, which must be 0, 1 or 2.  A number that is
/// refused has been read all the same.
pub open spec fn decode_format(s: Seq<u8>) -> Decoded<Format> {
    match decode_u16(s) {
        Ok((format, rest)) => if format == 0 {
            Ok((Format::SingleTrack, rest))
        } else if format == 1 {
            Ok((Format::MultipleTrack, rest))
        } else if format == 2 {
            Ok((Format::MultipleSong, rest))
        } else {
            Err((ParseError::UnexpectedFormat(format), rest))
        },
        Err(e) => Err(e),
    }
}

/// A header chunk: the header tag, declared length, format, declared number
/// of tracks and division, in this order.  The declared length is recorded
/// and held against nothing.
pub open spec fn decode_header(s: Seq<u8>) -> Decoded<HeaderChunkView> {
    match decode_tag_of(Tag::Header, s) {
        Err(e) => Err(e),
        Ok((tag, rest)) => match decode_u32(rest) {
            Err(e) => Err(e),
            Ok((header_len, rest)) => match decode_format(rest) {
                Err(e) => Err(e),
                Ok((format, rest)) => match decode_u16(rest) {
                    Err(e) => Err(e),
                    Ok((track_num, rest)) => match decode_i16(rest) {
                        Err(e) => Err(e),
                        Ok((division, rest)) => Ok(
                            (
                                HeaderChunkView { tag, header_len, format, track_num, division },
                                rest,
                            ),
                        ),
                    },
                },
            },
        },
    }
}

impl Tag {
    /// The four bytes of the tag.
    pub fn bytes(self) -> (r: [u8; 4])
        ensures
            r@ == tag_bytes(self),
    {
        let r: [u8; 4] = match self {
            Tag::Header => [0x4D, 0x54, 0x68, 0x64],
            Tag::Track => [0x4D, 0x54, 0x72, 0x6B],
        };
        assert(r@ =~= tag_bytes(self));
        r
    }

    /// Reads the tag that starts a chunk.
    pub fn read(buf: &mut ByteReader) -> (r: Result<Tag, ParseError>)
        ensures
            final(buf).follows(*old(buf)),
            match r {
                Ok(v) => decode_tag(old(buf)@) == done(v, final(buf)@),
                Err(e) => decode_tag(old(buf)@) == failed::<Tag>(e, final(buf)@) && (e is IOError
                    ==> *final(buf) == *old(buf)),
            },
    {
        if buf.is_empty() {
            return Err(ParseError::IOError(IoFailure::EndOfInput));
        }
        if buf.remaining() < 4 {
            return Err(ParseError::IOError(IoFailure::Truncated));
        }
        let ghost s = buf@;
        let b0 = buf.read_u8()?;
        let b1 = buf.read_u8()?;
        let b2 = buf.read_u8()?;
        let b3 = buf.read_u8()?;
        proof {
            assert(s.skip(1).skip(1).skip(1).skip(1) == s.skip(4));
            assert(s.take(4) == seq![b0, b1, b2, b3]);
        }
        if b0 == 0x4D && b1 == 0x54 && b2 == 0x68 && b3 == 0x64 {
            Ok(Tag::Header)
        } else if b0 == 0x4D && b1 == 0x54 && b2 == 0x72 && b3 == 0x6B {
            Ok(Tag::Track)
        } else {
            let tag: [u8; 4] = [b0, b1, b2, b3];
            assert(tag == [s[0], s[1], s[2], s[3]]);
            Err(ParseError::UnexpectedTag(tag))
        }
    }

    /// Reads the tag `wanted`, where a chunk of that kind has to start.
    pub fn read_as(buf: &mut ByteReader, wanted: Tag) -> (r: Result<Tag, ParseError>)
        ensures
            final(buf).follows(*old(buf)),
            match r {
                Ok(v) => decode_tag_of(wanted, old(buf)@) == done(v, final(buf)@) && v == wanted,
                Err(e) => decode_tag_of(wanted, old(buf)@) == failed::<Tag>(e, final(buf)@) && (e
                    is IOError ==> *final(buf) == *old(buf)),
            },
    {
        let ghost s = buf@;
        let tag = Tag::read(buf)?;
        let fits = match tag {
            Tag::Header => match wanted {
                Tag::Header => true,
                Tag::Track => false,
            },
            Tag::Track => match wanted {
                Tag::Header => false,
                Tag::Track => true,
            },
        };
        if fits {
            Ok(tag)
        } else {
            let found = tag.bytes();
            proof {
                assert(s.take(4) == tag_bytes(tag));
                assert(forall|i: int| 0 <= i < 4 ==> found@[i] == s.take(4)[i]);
                assert(found =~= [s[0], s[1], s[2], s[3]]);
            }
            Err(ParseError::UnexpectedTag(found))
        }
    }
}

impl Format {
    /// Reads the format of a file.
    pub fn read(buf: &mut ByteReader) -> (r: Result<Format, ParseError>)
        ensures
            final(buf).follows(*old(buf)),
            match r {
                Ok(v) => decode_format(old(buf)@) == done(v, final(buf)@),
                Err(e) => decode_format(old(buf)@) == failed::<Format>(e, final(buf)@) && (e
                    is IOError ==> *final(buf) == *old(buf)),
            },
    {
        let format = buf.read_u16()?;
        if format == 0 {
            Ok(Format::SingleTrack)
        } else if format == 1 {
            Ok(Format::MultipleTrack)
        } else if format == 2 {
            Ok(Format::MultipleSong)
        } else {
            Err(ParseError::UnexpectedFormat(format))
        }
    }
}

impl HeaderChunk {
    /// The tag of a header chunk is the header tag.
    #[verifier::type_invariant]
    spec fn inv(self) -> bool {
        self.tag == Tag::Header
    }

    /// Reads a header chunk.
    pub fn read(buf: &mut ByteReader) -> (r: Result<HeaderChunk, ParseError>)
        ensures
            final(buf).follows(*old(buf)),
            match r {
                Ok(v) => decode_header(old(buf)@) == done(v@, final(buf)@) && v@.tag
                    == Tag::Header,
                Err(e) => decode_header(old(buf)@) == failed::<HeaderChunkView>(e, final(buf)@),
            },
    {
        let tag = Tag::read_as(buf, Tag::Header)?;
        let header_len = buf.read_u32()?;
        let format = Format::read(buf)?;
        let track_num = buf.read_u16()?;
        let division = buf.read_i16()?;
        Ok(HeaderChunk { tag, header_len, format, track_num, division })
    }

    /// The tag that starts the chunk: the header tag.
    pub fn tag(&self) -> (r: Tag)
        ensures
            r == self@.tag,
            r == Tag::Header,
    {
        proof {
            use_type_invariant(self);
        }
        self.tag
    }

    /// The length that the chunk declares for itself.
    pub fn header_len(&self) -> (r: u32)
        ensures
            r == self@.header_len,
    {
        self.header_len
    }

    /// The format of the file.
    pub fn format(&self) -> (r: Format)
        ensures
            r == self@.format,
    {
        self.format
    }

    /// The number of tracks that the header declares.  How many tracks the
    /// file holds is another matter: nothing holds the two together.
    pub fn track_num(&self) -> (r: u16)
        ensures
            r == self@.track_num,
    {
        self.track_num
    }

    /// The division: if positive, pulses per quarter note; else frames per
    /// second and ticks per frame.
    pub fn division(&self) -> (r: i16)
        ensures
            r == self@.division,
    {
        self.division
    }
}

} // verus!
