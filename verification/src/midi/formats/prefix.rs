//! A decoder looks at no byte behind what it has read.
//!
//! Where the bytes `s` decode to a value and leave `rest`, the bytes `s`
//! with anything appended decode to the same value and leave `rest` with
//! the same appended.  This holds of every decoder but the two that may
//! stop at the end of the input; of these it holds where they stopped for
//! another reason.

use super::chunk::{decode_format, decode_header, decode_tag, decode_tag_of, Tag};
use super::message::{decode_event, decode_meta, decode_midi, decode_u7_pair};
use super::quantity::{decode_u14, decode_u28, decode_u7, vlq_width};
use super::reader::{decode_bytes, decode_i16, decode_u16, decode_u32, decode_u8, done};
use super::slice::decode_slice;
use super::track::{
    decode_events, decode_track, decode_track_event, lemma_track_event_advances, status_in_force,
};
use vstd::prelude::*;

verus! {

/// How the first `n` bytes of `s`, and what follows them, show in `s + t`.
pub proof fn lemma_append_split(s: Seq<u8>, t: Seq<u8>, n: int)
    requires
        0 <= n <= s.len(),
    ensures
        (s + t).take(n) == s.take(n),
        (s + t).skip(n) == s.skip(n) + t,
        forall|i: int| 0 <= i < s.len() ==> (s + t)[i] == s[i],
{
    assert((s + t).take(n) =~= s.take(n));
    assert((s + t).skip(n) =~= s.skip(n) + t);
}

/// One byte.
pub proof fn lemma_u8_extends(s: Seq<u8>, t: Seq<u8>)
    ensures
        decode_u8(s) matches Ok((v, rest)) ==> decode_u8(s + t) == done(v, rest + t),
{
    if s.len() >= 1 {
        lemma_append_split(s, t, 1);
    }
}

/// An unsigned 16-bit number.
pub proof fn lemma_u16_extends(s: Seq<u8>, t: Seq<u8>)
    ensures
        decode_u16(s) matches Ok((v, rest)) ==> decode_u16(s + t) == done(v, rest + t),
{
    if s.len() >= 2 {
        lemma_append_split(s, t, 2);
    }
}

/// A signed 16-bit number.
pub proof fn lemma_i16_extends(s: Seq<u8>, t: Seq<u8>)
    ensures
        decode_i16(s) matches Ok((v, rest)) ==> decode_i16(s + t) == done(v, rest + t),
{
    if s.len() >= 2 {
        lemma_append_split(s, t, 2);
    }
}

/// An unsigned 32-bit number.
pub proof fn lemma_u32_extends(s: Seq<u8>, t: Seq<u8>)
    ensures
        decode_u32(s) matches Ok((v, rest)) ==> decode_u32(s + t) == done(v, rest + t),
{
    if s.len() >= 4 {
        lemma_append_split(s, t, 4);
    }
}

/// A run of `n` bytes.
pub proof fn lemma_bytes_extends(s: Seq<u8>, n: nat, t: Seq<u8>)
    ensures
        decode_bytes(s, n) matches Ok((v, rest)) ==> decode_bytes(s + t, n) == done(v, rest + t),
{
    if s.len() >= n {
        lemma_append_split(s, t, n as int);
    }
}

/// A data byte.
pub proof fn lemma_u7_extends(s: Seq<u8>, t: Seq<u8>)
    ensures
        decode_u7(s) matches Ok((v, rest)) ==> decode_u7(s + t) == done(v, rest + t),
{
    lemma_u8_extends(s, t);
}

/// A pitch-bend value.
pub proof fn lemma_u14_extends(s: Seq<u8>, t: Seq<u8>)
    ensures
        decode_u14(s) matches Ok((v, rest)) ==> decode_u14(s + t) == done(v, rest + t),
{
    if s.len() >= 2 {
        lemma_append_split(s, t, 2);
    }
}

/// A variable-length quantity.
pub proof fn lemma_u28_extends(s: Seq<u8>, t: Seq<u8>)
    ensures
        decode_u28(s) matches Ok((v, rest)) ==> decode_u28(s + t) == done(v, rest + t),
{
    let n = vlq_width(s);
    if s.len() >= n {
        lemma_append_split(s, t, n as int);
        assert(vlq_width(s + t) == n);
    }
}

/// A run of bytes behind its length.
pub proof fn lemma_slice_extends(s: Seq<u8>, t: Seq<u8>)
    ensures
        decode_slice(s) matches Ok((v, rest)) ==> decode_slice(s + t) == done(v, rest + t),
{
    lemma_u28_extends(s, t);
    if let Ok((len, rest)) = decode_u28(s) {
        lemma_bytes_extends(rest, len.0 as nat, t);
    }
}

/// Two data bytes.
pub proof fn lemma_u7_pair_extends(s: Seq<u8>, t: Seq<u8>)
    ensures
        decode_u7_pair(s) matches Ok((v, rest)) ==> decode_u7_pair(s + t) == done(v, rest + t),
{
    lemma_u7_extends(s, t);
    if let Ok((_, rest)) = decode_u7(s) {
        lemma_u7_extends(rest, t);
    }
}

/// The data of a channel voice message.
pub proof fn lemma_midi_extends(command: u8, s: Seq<u8>, t: Seq<u8>)
    ensures
        decode_midi(command, s) matches Ok((v, rest)) ==> decode_midi(command, s + t) == done(
            v,
            rest + t,
        ),
{
    lemma_u7_extends(s, t);
    lemma_u14_extends(s, t);
    lemma_u7_pair_extends(s, t);
}

/// A meta message.
pub proof fn lemma_meta_extends(s: Seq<u8>, t: Seq<u8>)
    ensures
        decode_meta(s) matches Ok((v, rest)) ==> decode_meta(s + t) == done(v, rest + t),
{
    lemma_u8_extends(s, t);
    if let Ok((_, rest)) = decode_u8(s) {
        lemma_slice_extends(rest, t);
    }
}

/// The event that a status byte announces.
pub proof fn lemma_event_extends(status: u8, s: Seq<u8>, t: Seq<u8>)
    ensures
        decode_event(status, s) matches Ok((v, rest)) ==> decode_event(status, s + t) == done(
            v,
            rest + t,
        ),
{
    lemma_midi_extends(status / 16, s, t);
    lemma_slice_extends(s, t);
    lemma_meta_extends(s, t);
}

/// One event of a track.
pub proof fn lemma_track_event_extends(s: Seq<u8>, running: Option<u8>, t: Seq<u8>)
    ensures
        decode_track_event(s, running) matches Ok((v, rest)) ==> decode_track_event(
            s + t,
            running,
        ) == done(v, rest + t),
{
    reveal(decode_track_event);
    lemma_u28_extends(s, t);
    if let Ok((_, rest)) = decode_u28(s) {
        if rest.len() > 0 {
            lemma_append_split(rest, t, 1);
            if let Some(status) = status_in_force(rest[0], running) {
                lemma_event_extends(status, rest, t);
                lemma_event_extends(status, rest.skip(1), t);
            }
        }
    }
}

/// The events of a track that its end-of-track event closes are the same
/// whatever follows them.
pub proof fn lemma_events_extends(s: Seq<u8>, running: Option<u8>, t: Seq<u8>)
    ensures
        decode_events(s, running) matches Ok((events, rest)) ==> events.len() > 0
            && events.last().event.is_end() ==> decode_events(s + t, running) == done(
                events,
                rest + t,
            ),
    decreases s.len(),
{
    lemma_track_event_advances(s, running);
    lemma_track_event_extends(s, running, t);
    if let Ok(((first, status), rest)) = decode_track_event(s, running) {
        if !first.event.is_end() {
            lemma_events_extends(rest, Some(status), t);
            if let Ok((others, _)) = decode_events(rest, Some(status)) {
                let events = seq![first] + others;
                if events.last().event.is_end() {
                    assert(others.len() > 0);
                    assert(events.last() == others.last());
                }
            }
        }
    }
}

/// A tag.
pub proof fn lemma_tag_extends(s: Seq<u8>, t: Seq<u8>)
    ensures
        decode_tag(s) matches Ok((v, rest)) ==> decode_tag(s + t) == done(v, rest + t),
{
    if s.len() >= 4 {
        lemma_append_split(s, t, 4);
    }
}

/// The tag of one kind of chunk.
pub proof fn lemma_tag_of_extends(wanted: Tag, s: Seq<u8>, t: Seq<u8>)
    ensures
        decode_tag_of(wanted, s) matches Ok((v, rest)) ==> decode_tag_of(wanted, s + t) == done(
            v,
            rest + t,
        ),
{
    lemma_tag_extends(s, t);
}

/// A format.
pub proof fn lemma_format_extends(s: Seq<u8>, t: Seq<u8>)
    ensures
        decode_format(s) matches Ok((v, rest)) ==> decode_format(s + t) == done(v, rest + t),
{
    lemma_u16_extends(s, t);
}

/// A header chunk.
pub proof fn lemma_header_extends(s: Seq<u8>, t: Seq<u8>)
    ensures
        decode_header(s) matches Ok((v, rest)) ==> decode_header(s + t) == done(v, rest + t),
{
    lemma_tag_of_extends(Tag::Header, s, t);
    if let Ok((_, r1)) = decode_tag_of(Tag::Header, s) {
        lemma_u32_extends(r1, t);
        if let Ok((_, r2)) = decode_u32(r1) {
            lemma_format_extends(r2, t);
            if let Ok((_, r3)) = decode_format(r2) {
                lemma_u16_extends(r3, t);
                if let Ok((_, r4)) = decode_u16(r3) {
                    lemma_i16_extends(r4, t);
                }
            }
        }
    }
}

/// A track chunk that its end-of-track event closes is the same whatever
/// follows it.
pub proof fn lemma_track_extends(s: Seq<u8>, t: Seq<u8>)
    ensures
        decode_track(s) matches Ok((v, rest)) ==> v.is_closed() ==> decode_track(s + t) == done(
            v,
            rest + t,
        ),
{
    lemma_tag_of_extends(Tag::Track, s, t);
    if let Ok((_, r1)) = decode_tag_of(Tag::Track, s) {
        lemma_u32_extends(r1, t);
        if let Ok((_, r2)) = decode_u32(r1) {
            lemma_events_extends(r2, None, t);
        }
    }
}

} // verus!
