//! Laws of the decoder: what holds of it on every input.

use super::chunk::decode_header;
use super::error::ParseError;
use super::reader::{done, value};
use super::prefix::{lemma_append_split, lemma_header_extends, lemma_track_extends};
use super::quantity::{decode_u28, lemma_septets, septets, vlq_width, U28};
use super::smf::{decode_smf, decode_tracks};
use super::track::{decode_track, decode_track_event, lemma_track_advances, TrackChunkView};
use vstd::prelude::*;

verus! {

/// The digits of `v` in base 128, the most significant first: one digit for
/// a number below 128, and no leading zero.
pub open spec fn septets_of(v: nat) -> Seq<u8>
    decreases v,
{
    if v < 0x80 {
        seq![v as u8]
    } else {
        septets_of(v / 0x80).push((v % 0x80) as u8)
    }
}

/// The variable-length quantity that stands for `v`: its digits in base
/// 128, each in a byte of its own, the top bit set in every byte but the
/// last.
pub open spec fn encode_u28(v: nat) -> Seq<u8> {
    let digits = septets_of(v);
    Seq::new(
        digits.len(),
        |i: int|
            if i < digits.len() - 1 {
                (digits[i] + 0x80) as u8
            } else {
                digits[i]
            },
    )
}

/// How a number below 2^28 falls into four digits in base 128.
pub proof fn lemma_septet_digits(v: u32)
    by (bit_vector)
    requires
        v < 0x1000_0000,
    ensures
        (v / 0x80) / 0x80 == v / 0x4000,
        (v / 0x4000) / 0x80 == v / 0x20_0000,
        v / 0x20_0000 < 0x80,
        v < 0x20_0000 ==> v / 0x4000 < 0x80,
        v < 0x4000 ==> v / 0x80 < 0x80,
        v >= 0x80 ==> v / 0x80 >= 1,
        v >= 0x4000 ==> v / 0x4000 >= 1,
        v >= 0x20_0000 ==> v / 0x20_0000 >= 1,
        (((v / 0x20_0000) * 0x80 + (v / 0x4000) % 0x80) * 0x80 + (v / 0x80) % 0x80) * 0x80 + v
            % 0x80 == v,
{
}

/// The digits of a number below 2^28, written out.
pub proof fn lemma_septets_of(v: nat)
    requires
        v < 0x1000_0000,
    ensures
        v < 0x80 ==> septets_of(v) == seq![v as u8],
        0x80 <= v < 0x4000 ==> septets_of(v) == seq![(v / 0x80) as u8, (v % 0x80) as u8],
        0x4000 <= v < 0x20_0000 ==> septets_of(v) == seq![
            (v / 0x4000) as u8,
            ((v / 0x80) % 0x80) as u8,
            (v % 0x80) as u8,
        ],
        0x20_0000 <= v ==> septets_of(v) == seq![
            (v / 0x20_0000) as u8,
            ((v / 0x4000) % 0x80) as u8,
            ((v / 0x80) % 0x80) as u8,
            (v % 0x80) as u8,
        ],
    decreases v,
{
    lemma_septet_digits(v as u32);
    if v >= 0x80 {
        let upper = v / 0x80;
        lemma_septet_digits(upper as u32);
        lemma_septets_of(upper);
        let digits = septets_of(upper).push((v % 0x80) as u8);
        assert(septets_of(v) == digits);
        if v < 0x4000 {
            assert(digits =~= seq![(v / 0x80) as u8, (v % 0x80) as u8]);
        } else if v < 0x20_0000 {
            assert(upper / 0x80 == v / 0x4000);
            assert(digits =~= seq![
                (v / 0x4000) as u8,
                ((v / 0x80) % 0x80) as u8,
                (v % 0x80) as u8,
            ]);
        } else {
            assert(upper / 0x4000 == v / 0x20_0000);
            assert((upper / 0x80) % 0x80 == (v / 0x4000) % 0x80);
            assert(digits =~= seq![
                (v / 0x20_0000) as u8,
                ((v / 0x4000) % 0x80) as u8,
                ((v / 0x80) % 0x80) as u8,
                (v % 0x80) as u8,
            ]);
        }
    }
}

/// The bytes that stand for a number below 2^28, written out.
pub proof fn lemma_encode_u28(v: nat)
    requires
        v < 0x1000_0000,
    ensures
        v < 0x80 ==> encode_u28(v) == seq![v as u8],
        0x80 <= v < 0x4000 ==> encode_u28(v) == seq![(0x80 + v / 0x80) as u8, (v % 0x80) as u8],
        0x4000 <= v < 0x20_0000 ==> encode_u28(v) == seq![
            (0x80 + v / 0x4000) as u8,
            (0x80 + (v / 0x80) % 0x80) as u8,
            (v % 0x80) as u8,
        ],
        0x20_0000 <= v ==> encode_u28(v) == seq![
            (0x80 + v / 0x20_0000) as u8,
            (0x80 + (v / 0x4000) % 0x80) as u8,
            (0x80 + (v / 0x80) % 0x80) as u8,
            (v % 0x80) as u8,
        ],
{
    lemma_septets_of(v);
    lemma_septet_digits(v as u32);
    if v < 0x80 {
        assert(encode_u28(v) =~= seq![v as u8]);
    } else if v < 0x4000 {
        assert(encode_u28(v) =~= seq![(0x80 + v / 0x80) as u8, (v % 0x80) as u8]);
    } else if v < 0x20_0000 {
        assert(encode_u28(v) =~= seq![
            (0x80 + v / 0x4000) as u8,
            (0x80 + (v / 0x80) % 0x80) as u8,
            (v % 0x80) as u8,
        ]);
    } else {
        assert(encode_u28(v) =~= seq![
            (0x80 + v / 0x20_0000) as u8,
            (0x80 + (v / 0x4000) % 0x80) as u8,
            (0x80 + (v / 0x80) % 0x80) as u8,
            (v % 0x80) as u8,
        ]);
    }
}

/// Up to four bytes of which the last, and only the last, is below 0x80
/// are read as one variable-length quantity, whatever follows them.
pub proof fn lemma_decode_closed_code(code: Seq<u8>, tail: Seq<u8>)
    requires
        1 <= code.len() <= 4,
        forall|i: int| 0 <= i < code.len() - 1 ==> code[i] >= 0x80,
        code.last() < 0x80,
    ensures
        decode_u28(code + tail) == done(U28(septets(code) as u32), tail),
{
    let n = code.len() as int;
    lemma_append_split(code, tail, n);
    assert(vlq_width(code + tail) == n);
    assert(code.take(n) == code);
    assert(code.skip(n) + tail == tail);
}

/// The bytes that stand for a number below 2^28 spell that number.
pub proof fn lemma_encoded_septets(v: nat)
    requires
        v < 0x1000_0000,
    ensures
        1 <= encode_u28(v).len() <= 4,
        forall|i: int| 0 <= i < encode_u28(v).len() - 1 ==> encode_u28(v)[i] >= 0x80,
        encode_u28(v).last() < 0x80,
        septets(encode_u28(v)) == v,
{
    lemma_encode_u28(v);
    lemma_septet_digits(v as u32);
    lemma_septets(encode_u28(v));
}

/// Every number below 2^28 comes back from its variable-length quantity:
/// decoding the bytes that stand for `v`, whatever follows them, gives `v`
/// and leaves what follows.
pub proof fn law_u28_round_trip(v: nat, tail: Seq<u8>)
    requires
        v < 0x1000_0000,
    ensures
        decode_u28(encode_u28(v) + tail) == done(U28(v as u32), tail),
{
    lemma_encoded_septets(v);
    lemma_decode_closed_code(encode_u28(v), tail);
}

/// Whether the event that starts `s` leaves out its status byte: behind
/// its delta time stands a byte below 0x80.
pub open spec fn omits_status(s: Seq<u8>) -> bool {
    decode_u28(s) matches Ok((_, data)) && data.len() > 0 && data[0] < 0x80
}

/// An event that leaves out its status byte goes by the status of the
/// event before it.  Where an event is followed by one that leaves out its
/// status byte, the second leaves in force the status that the first did;
/// and if the first is a channel voice message, so is the second, on the
/// same channel and of the same class.
pub proof fn law_running_status(s: Seq<u8>, running: Option<u8>)
    requires
        decode_track_event(s, running) matches Ok(((_, status), rest)) && omits_status(rest)
            && decode_track_event(rest, Some(status)) is Ok,
    ensures
        ({
            let ((first, status), rest) = decode_track_event(s, running)->Ok_0;
            let ((second, carried), _) = decode_track_event(rest, Some(status))->Ok_0;
            &&& carried == status
            &&& first.event is Midi ==> {
                &&& second.event is Midi
                &&& second.event->channel == first.event->channel
                &&& second.event->midi_msg.command() == first.event->midi_msg.command()
            }
        }),
{
    reveal(decode_track_event);
}

/// Whether `chunk` is one track chunk and nothing more, closed by its
/// end-of-track event.
pub open spec fn is_closed_track(chunk: Seq<u8>) -> bool {
    decode_track(chunk) matches Ok((track, rest)) && rest.len() == 0 && track.is_closed()
}

/// Closed track chunks that stand one behind the other are read one by
/// one, to the last.
pub proof fn lemma_closed_tracks(chunks: Seq<Seq<u8>>)
    requires
        forall|i: int| 0 <= i < chunks.len() ==> is_closed_track(#[trigger] chunks[i]),
    ensures
        decode_tracks(chunks.flatten()) == Ok::<_, (ParseError, Seq<u8>)>(
            chunks.map_values(|chunk: Seq<u8>| value(decode_track(chunk))),
        ),
    decreases chunks.len(),
{
    let tracks = chunks.map_values(|chunk: Seq<u8>| value(decode_track(chunk)));
    if chunks.len() == 0 {
        lemma_track_advances(chunks.flatten());
        assert(tracks == Seq::<TrackChunkView>::empty());
    } else {
        let first = chunks.first();
        let others = chunks.drop_first();
        assert(is_closed_track(first));
        assert forall|i: int| 0 <= i < others.len() implies is_closed_track(
            #[trigger] others[i],
        ) by {
            assert(others[i] == chunks[i + 1]);
        }
        lemma_closed_tracks(others);
        lemma_track_extends(first, others.flatten());
        let (track, rest) = decode_track(first)->Ok_0;
        assert(rest + others.flatten() == others.flatten());
        assert(tracks == seq![track] + others.map_values(
            |chunk: Seq<u8>| value(decode_track(chunk)),
        ));
    }
}

/// A file that is a header chunk and, behind it, track chunks that are
/// each closed by an end-of-track event decodes to that header and to as
/// many tracks as there are chunks, each the track of its chunk and so each
/// ending with its end-of-track event.  Where the header declares as many
/// tracks as there are chunks, the file has as many tracks as it declares.
pub proof fn law_closed_tracks_are_all_read(header: Seq<u8>, chunks: Seq<Seq<u8>>)
    requires
        decode_header(header) matches Ok((_, rest)) && rest.len() == 0,
        forall|i: int| 0 <= i < chunks.len() ==> is_closed_track(#[trigger] chunks[i]),
    ensures
        decode_smf(header + chunks.flatten()) matches Ok(smf) && {
            &&& smf.header == value(decode_header(header))
            &&& smf.tracks.len() == chunks.len()
            &&& smf.header.track_num == chunks.len() ==> smf.tracks.len() == smf.header.track_num
            &&& forall|i: int|
                0 <= i < chunks.len() ==> (#[trigger] smf.tracks[i]) == value(
                    decode_track(chunks[i]),
                ) && smf.tracks[i].is_closed()
        },
{
    lemma_header_extends(header, chunks.flatten());
    lemma_closed_tracks(chunks);
    let (_, rest) = decode_header(header)->Ok_0;
    assert(rest + chunks.flatten() == chunks.flatten());
}

/// Whether `a` and `b` are the same but for the four bytes behind the tag
/// they start with: the bytes of a chunk's declared length.
pub open spec fn differ_in_declared_length(a: Seq<u8>, b: Seq<u8>) -> bool {
    &&& a.len() == b.len()
    &&& forall|i: int| 0 <= i < a.len() && !(4 <= i < 8) ==> a[i] == b[i]
}

/// The declared length of a track chunk is held against nothing.  Two
/// inputs that differ in nothing else are decoded alike: both succeed or
/// both fail; where they succeed, with the same events and the same bytes
/// left; where they fail, with the same failure and as many bytes left
/// unread.
pub proof fn law_declared_track_length_is_free(a: Seq<u8>, b: Seq<u8>)
    requires
        differ_in_declared_length(a, b),
    ensures
        match (decode_track(a), decode_track(b)) {
            (Ok((track_a, rest_a)), Ok((track_b, rest_b))) => {
                &&& track_a.tag == track_b.tag
                &&& track_a.events == track_b.events
                &&& rest_a == rest_b
            },
            (Err((failure_a, unread_a)), Err((failure_b, unread_b))) => {
                &&& failure_a == failure_b
                &&& unread_a.len() == unread_b.len()
            },
            _ => false,
        },
{
    if a.len() >= 4 {
        assert(a.take(4) =~= b.take(4));
    } else {
        assert(a =~= b);
    }
    if a.len() >= 8 {
        assert(a.skip(4).skip(4) =~= b.skip(4).skip(4));
    }
}

/// The declared length of a header chunk is held against nothing.  Two
/// inputs that differ in nothing else are decoded alike: both succeed or
/// both fail; where they succeed, with the same format, number of tracks
/// and division and the same bytes left; where they fail, with the same
/// failure and as many bytes left unread.
pub proof fn law_declared_header_length_is_free(a: Seq<u8>, b: Seq<u8>)
    requires
        differ_in_declared_length(a, b),
    ensures
        match (decode_header(a), decode_header(b)) {
            (Ok((header_a, rest_a)), Ok((header_b, rest_b))) => {
                &&& header_a.tag == header_b.tag
                &&& header_a.format == header_b.format
                &&& header_a.track_num == header_b.track_num
                &&& header_a.division == header_b.division
                &&& rest_a == rest_b
            },
            (Err((failure_a, unread_a)), Err((failure_b, unread_b))) => {
                &&& failure_a == failure_b
                &&& unread_a.len() == unread_b.len()
            },
            _ => false,
        },
{
    if a.len() >= 4 {
        assert(a.take(4) =~= b.take(4));
    } else {
        assert(a =~= b);
    }
    if a.len() >= 8 {
        assert(a.skip(4).skip(4) =~= b.skip(4).skip(4));
    }
}

} // verus!
