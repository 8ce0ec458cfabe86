//! A whole file: the header chunk and the track chunks behind it.

use super::chunk::{decode_header, Format, HeaderChunk, HeaderChunkView};
use super::error::ParseError;
use super::reader::{done, ByteReader};
use super::track::{decode_track, lemma_track_advances, TrackChunk, TrackChunkView};
use vstd::prelude::*;

verus! {

/// A decoded Standard MIDI File.
#[derive(Debug)]
pub struct Smf {
    header: HeaderChunk,
    tracks: Vec<TrackChunk>,
}

/// An [`Smf`] as a mathematical value.
pub struct SmfView {
    pub header: HeaderChunkView,
    /// The tracks, in the order of the file.  There are as many as the file
    /// holds, whatever number its header declares.
    pub tracks: Seq<TrackChunkView>,
}

impl View for Smf {
    type V = SmfView;

    closed spec fn view(&self) -> SmfView {
        SmfView { header: self.header@, tracks: self.tracks@.map_values(|t: TrackChunk| t@) }
    }
}

impl SmfView {
    /// Every track is well formed.
    pub open spec fn wf(self) -> bool {
        forall|i: int| 0 <= i < self.tracks.len() ==> (#[trigger] self.tracks[i]).wf()
    }
}

/// The track chunks of a file: chunk after chunk until the input ends where
/// a chunk would start.  That end is no failure; any other failure is one of
/// the whole file, and comes with the bytes that are left unread at it.
pub open spec fn decode_tracks(s: Seq<u8>) -> Result<
    Seq<TrackChunkView>,
    (ParseError, Seq<u8>),
>
    decreases s.len(),
{
    match decode_track(s) {
        Err((e, unread)) => if e.spec_is_eof() {
            Ok(Seq::empty())
        } else {
            Err((e, unread))
        },
        Ok((first, rest)) => {
            proof {
                lemma_track_advances(s);
            }
            match decode_tracks(rest) {
                Err(e) => Err(e),
                Ok(others) => Ok(seq![first] + others),
            }
        },
    }
}

/// A file: the header chunk, then the track chunks, which use up the input.
/// A failure comes with the bytes that are left unread at it.
pub open spec fn decode_smf(s: Seq<u8>) -> Result<SmfView, (ParseError, Seq<u8>)> {
    match decode_header(s) {
        Err(e) => Err(e),
        Ok((header, rest)) => match decode_tracks(rest) {
            Err(e) => Err(e),
            Ok(tracks) => Ok(SmfView { header, tracks }),
        },
    }
}

/// The tracks read so far, followed by what the rest of the input gives.
spec fn tracks_then(
    seen: Seq<TrackChunkView>,
    then: Result<Seq<TrackChunkView>, (ParseError, Seq<u8>)>,
) -> Result<Seq<TrackChunkView>, (ParseError, Seq<u8>)> {
    match then {
        Ok(more) => Ok(seen + more),
        Err(e) => Err(e),
    }
}

/// The 16 bits of `division`, read as an unsigned number.
pub open spec fn division_bits(division: i16) -> int {
    if division < 0 {
        division + 0x1_0000
    } else {
        division as int
    }
}

/// The frames per second of a division that is not positive: the low seven
/// bits of its upper byte.
pub open spec fn frames_per_second(division: i16) -> int {
    (division_bits(division) / 0x100) % 0x80
}

/// The ticks per frame of a division that is not positive: its lower byte.
pub open spec fn ticks_per_frame(division: i16) -> int {
    division_bits(division) % 0x100
}

/// Whether a division gives a time per tick: one that is not positive must
/// name a frame rate and a number of ticks per frame that are not zero.
pub open spec fn has_timebase(division: i16) -> bool {
    division > 0 || frames_per_second(division) * ticks_per_frame(division) != 0
}

/// The microseconds that one tick lasts under `division`, at the tempo that
/// holds where a file sets none: 500000 microseconds per quarter note,
/// divided by the pulses per quarter note; or a second divided by the ticks
/// per second where the division counts in frames.  Fractions are dropped.
pub open spec fn default_timebase(division: i16) -> int {
    if division > 0 {
        500_000int / (division as int)
    } else {
        1_000_000int / (frames_per_second(division) * ticks_per_frame(division))
    }
}

/// The ticks in a second under a division that counts in frames.
fn ticks_per_second(division: i16) -> (r: usize)
    ensures
        r == frames_per_second(division) * ticks_per_frame(division),
{
    let fps_bits: i16 = (division >> 8) & 0x007F;
    let tpf_bits: i16 = division & 0x00FF;
    assert(fps_bits == frames_per_second(division) && tpf_bits == ticks_per_frame(division)
        && 0 <= fps_bits < 0x80 && 0 <= tpf_bits < 0x100) by (bit_vector)
        requires
            fps_bits == (division >> 8) & 0x007F,
            tpf_bits == division & 0x00FF,
    ;
    let fps = fps_bits as usize;
    let tpf = tpf_bits as usize;
    assert(fps * tpf <= 0x7F * 0xFF) by (nonlinear_arith)
        requires
            fps <= 0x7F,
            tpf <= 0xFF,
    ;
    fps * tpf
}

impl Smf {
    /// Reads a file: the header chunk, and track chunks to the end of the
    /// input.
    pub fn read(buf: &mut ByteReader) -> (r: Result<Smf, ParseError>)
        ensures
            final(buf).follows(*old(buf)),
            match r {
                Ok(v) => decode_smf(old(buf)@) == Ok::<_, (ParseError, Seq<u8>)>(v@) && v@.wf()
                    && final(buf)@.len() == 0,
                Err(e) => decode_smf(old(buf)@) == Err::<SmfView, _>((e, final(buf)@)),
            },
    {
        let header = HeaderChunk::read(buf)?;
        let mut tracks: Vec<TrackChunk> = Vec::new();
        let ghost start = buf@;
        loop
            invariant
                buf.follows(*old(buf)),
                decode_header(old(buf)@) == done(header@, start),
                decode_tracks(start) == tracks_then(
                    tracks@.map_values(|t: TrackChunk| t@),
                    decode_tracks(buf@),
                ),
                forall|i: int| 0 <= i < tracks.len() ==> (#[trigger] tracks[i])@.wf(),
            decreases buf@.len(),
        {
            let ghost before = buf@;
            let ghost seen = tracks@.map_values(|t: TrackChunk| t@);
            proof {
                lemma_track_advances(before);
            }
            match TrackChunk::read(buf) {
                Ok(track) => {
                    tracks.push(track);
                    proof {
                        let now = tracks@.map_values(|t: TrackChunk| t@);
                        assert(now == seen.push(track@));
                        if let Ok(more) = decode_tracks(buf@) {
                            assert(seen + (seq![track@] + more) == now + more);
                        }
                    }
                },
                Err(pe) => {
                    if pe.is_eof() {
                        proof {
                            assert(seen + Seq::empty() == seen);
                        }
                        return Ok(Smf { header, tracks });
                    } else {
                        return Err(pe);
                    }
                },
            }
        }
    }

    /// Decodes the bytes of a file.
    pub fn from_bytes(bytes: &[u8]) -> (r: Result<Smf, ParseError>)
        ensures
            match r {
                Ok(v) => decode_smf(bytes@) == Ok::<_, (ParseError, Seq<u8>)>(v@) && v@.wf(),
                Err(e) => decode_smf(bytes@) matches Err((failure, _)) && failure == e,
            },
    {
        let mut buf = ByteReader::new(bytes);
        Smf::read(&mut buf)
    }

    /// Returns the number of microseconds at 1 tick, at the default tempo.
    /// A file that sets a tempo of its own changes the time per tick from
    /// there on, which this does not follow.
    pub fn timebase(&self) -> (r: usize)
        requires
            has_timebase(self@.header.division),
        ensures
            r == default_timebase(self@.header.division),
    {
        let division = self.header.division();
        let default_tempo: usize = 500_000;
        if division > 0 {
            default_tempo / division as usize
        } else {
            1_000_000 / ticks_per_second(division)
        }
    }

    /// Returns the time base, where the division gives one.
    pub fn try_timebase(&self) -> (r: Option<usize>)
        ensures
            r == (if has_timebase(self@.header.division) {
                Some(default_timebase(self@.header.division) as usize)
            } else {
                None
            }),
    {
        let division = self.header.division();
        if division > 0 || ticks_per_second(division) != 0 {
            Some(self.timebase())
        } else {
            None
        }
    }

    /// Returns the format of the file.
    pub fn format(&self) -> (r: Format)
        ensures
            r == self@.header.format,
    {
        self.header.format()
    }

    /// The header chunk.
    pub fn header(&self) -> (r: &HeaderChunk)
        ensures
            r@ == self@.header,
    {
        &self.header
    }

    /// The tracks, in the order of the file.
    pub fn tracks(&self) -> (r: &Vec<TrackChunk>)
        ensures
            r@.map_values(|t: TrackChunk| t@) == self@.tracks,
    {
        &self.tracks
    }
}

} // verus!
