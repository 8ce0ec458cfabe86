//! Track chunks and the events in them.
//!
//! An event may leave out its status byte and go by that of the event
//! before it.  The status in force is handed from one event to the next: it
//! is an argument and a result of reading an event, and a track starts with
//! none.

use super::chunk::{decode_tag_of, Tag};
use super::error::{IoFailure, ParseError};
use super::message::{decode_event, Event, EventView};
use super::quantity::{decode_u28, U28};
use super::reader::{decode_u32, done, failed, truncated, ByteReader, Decoded};
use vstd::prelude::*;

verus! {

/// An event and the time, in ticks, between the event before it and itself.
#[derive(Debug)]
pub struct TrackEvent {
    delta: U28,
    event: Event,
}

/// A [`TrackEvent`] as a mathematical value.
pub struct TrackEventView {
    pub delta: u32,
    pub event: EventView,
}

impl View for TrackEvent {
    type V = TrackEventView;

    closed spec fn view(&self) -> TrackEventView {
        TrackEventView { delta: self.delta.0, event: self.event@ }
    }
}

/// A track chunk: the events of one track, in the order of the file.
#[derive(Debug)]
pub struct TrackChunk {
    tag: Tag,
    track_len: u32,
    events: Vec<TrackEvent>,
}

/// A [`TrackChunk`] as a mathematical value.
pub struct TrackChunkView {
    /// The tag that starts the chunk: the track tag.
    pub tag: Tag,
    /// The length that the chunk declares for itself.
    pub track_len: u32,
    pub events: Seq<TrackEventView>,
}

impl View for TrackChunk {
    type V = TrackChunkView;

    closed spec fn view(&self) -> TrackChunkView {
        TrackChunkView {
            tag: self.tag,
            track_len: self.track_len,
            events: self.events@.map_values(|e: TrackEvent| e@),
        }
    }
}

impl TrackEventView {
    /// The delta time fits in 28 bits and the event is in range.
    pub open spec fn wf(self) -> bool {
        self.delta < 0x1000_0000 && self.event.wf()
    }
}

impl TrackChunkView {
    /// Every event is in range, and nothing follows an end of track.
    pub open spec fn wf(self) -> bool {
        &&& forall|i: int| 0 <= i < self.events.len() ==> (#[trigger] self.events[i]).wf()
        &&& forall|i: int|
            0 <= i < self.events.len() - 1 ==> !(#[trigger] self.events[i]).event.is_end()
    }

    /// Whether the track ends as it should, with the end-of-track event.
    pub open spec fn is_closed(self) -> bool {
        self.events.len() > 0 && self.events.last().event.is_end()
    }
}

/// The status byte that governs an event whose first byte after the delta
/// time is `next`, where `running` is what the event before it left in
/// force.  A byte of 0x80 or above is itself the status; below that it is
/// data already, and the status is the running one, if there is one.
pub open spec fn status_in_force(next: u8, running: Option<u8>) -> Option<u8> {
    if next >= 0x80 {
        Some(next)
    } else {
        match running {
            Some(status) => if status >= 0x80 {
                Some(status)
            } else {
                None
            },
            None => None,
        }
    }
}

/// One event of a track: the delta time, the status byte unless it is left
/// out, and what the status in force asks for.  Besides the event this gives
/// the status that it leaves in force.  Where no byte is left for the event
/// the input has ended cleanly; where it ends further on, it is cut short.
/// A byte that is found not to be a command has not been read.
#[verifier::opaque]
pub open spec fn decode_track_event(s: Seq<u8>, running: Option<u8>) -> Decoded<
    (TrackEventView, u8),
> {
    if s.len() == 0 {
        Err((ParseError::IOError(IoFailure::EndOfInput), s))
    } else {
        match decode_u28(s) {
            Err(e) => Err(e),
            Ok((delta, rest)) => if rest.len() == 0 {
                Err((truncated(), rest))
            } else {
                match status_in_force(rest[0], running) {
                    None => Err((ParseError::NotCommand(rest[0]), rest)),
                    Some(status) => match decode_event(
                        status,
                        if rest[0] >= 0x80 {
                            rest.skip(1)
                        } else {
                            rest
                        },
                    ) {
                        Err(e) => Err(e),
                        Ok((event, rest)) => Ok(
                            ((TrackEventView { delta: delta.0, event }, status), rest),
                        ),
                    },
                }
            },
        }
    }
}

/// An event takes at least two bytes, and it fails for a clean end of the
/// input where there is no input, and nowhere else.
pub proof fn lemma_track_event_advances(s: Seq<u8>, running: Option<u8>)
    ensures
        decode_track_event(s, running) matches Ok((_, rest)) ==> rest.len() + 2 <= s.len(),
        decode_track_event(s, running) matches Err((e, _)) ==> (e.spec_is_eof() <==> s.len()
            == 0),
{
    reveal(decode_track_event);
}

/// The events of a track: event after event, up to and with the first end
/// of track, or up to the clean end of the input where that comes first.
/// That end is no failure of the track; any other failure of an event is
/// one.
pub open spec fn decode_events(s: Seq<u8>, running: Option<u8>) -> Decoded<Seq<TrackEventView>>
    decreases s.len(),
{
    match decode_track_event(s, running) {
        Err((e, unread)) => if e.spec_is_eof() {
            Ok((Seq::empty(), s))
        } else {
            Err((e, unread))
        },
        Ok(((first, status), rest)) => if first.event.is_end() {
            Ok((seq![first], rest))
        } else {
            proof {
                lemma_track_event_advances(s, running);
            }
            match decode_events(rest, Some(status)) {
                Err(e) => Err(e),
                Ok((others, rest)) => Ok((seq![first] + others, rest)),
            }
        },
    }
}

/// A track chunk: the track tag, declared length and events.  The declared
/// length is recorded and held against nothing.
pub open spec fn decode_track(s: Seq<u8>) -> Decoded<TrackChunkView> {
    match decode_tag_of(Tag::Track, s) {
        Err(e) => Err(e),
        Ok((tag, rest)) => match decode_u32(rest) {
            Err(e) => Err(e),
            Ok((track_len, rest)) => match decode_events(rest, None) {
                Err(e) => Err(e),
                Ok((events, rest)) => Ok((TrackChunkView { tag, track_len, events }, rest)),
            },
        },
    }
}

impl TrackEvent {
    /// Returns tick and event pair.
    pub fn event(&self) -> (r: (u32, &Event))
        ensures
            r.0 == self@.delta,
            r.1@ == self@.event,
    {
        (self.delta.0, &self.event)
    }

    /// Reads one event of a track.  `running` is the status that the event
    /// before it left in force, `None` for the first event of a track; the
    /// status that this event leaves in force comes back with it.  At the
    /// end of the input this fails with the clean end.
    pub fn read(buf: &mut ByteReader, running: Option<u8>) -> (r: Result<
        (TrackEvent, u8),
        ParseError,
    >)
        ensures
            final(buf).follows(*old(buf)),
            match r {
                Ok((event, status)) => decode_track_event(old(buf)@, running) == done(
                    (event@, status),
                    final(buf)@,
                ) && event@.wf() && status >= 0x80,
                Err(e) => decode_track_event(old(buf)@, running) == failed::<
                    (TrackEventView, u8),
                >(e, final(buf)@),
            },
    {
        proof {
            reveal(decode_track_event);
        }
        if buf.is_empty() {
            return Err(ParseError::IOError(IoFailure::EndOfInput));
        }
        let delta = U28::read(buf)?;
        let next = match buf.peek() {
            Some(next) => next,
            None => {
                return Err(ParseError::IOError(IoFailure::Truncated));
            },
        };
        let status = if next >= 0x80 {
            buf.read_u8()?
        } else {
            match running {
                Some(status) => {
                    if status < 0x80 {
                        return Err(ParseError::NotCommand(next));
                    }
                    status
                },
                None => {
                    return Err(ParseError::NotCommand(next));
                },
            }
        };
        let event = Event::read(buf, status)?;
        Ok((TrackEvent { delta, event }, status))
    }
}

/// The events of a track leave no more input than they found.
pub proof fn lemma_events_advance(s: Seq<u8>, running: Option<u8>)
    ensures
        decode_events(s, running) matches Ok((_, rest)) ==> rest.len() <= s.len(),
    decreases s.len(),
{
    lemma_track_event_advances(s, running);
    if let Ok(((first, status), rest)) = decode_track_event(s, running) {
        if !first.event.is_end() {
            lemma_events_advance(rest, Some(status));
        }
    }
}

/// A track chunk takes at least eight bytes, and the one failure that says
/// that the input had ended before the chunk began comes of nothing else.
pub proof fn lemma_track_advances(s: Seq<u8>)
    ensures
        decode_track(s) matches Ok((_, rest)) ==> rest.len() + 8 <= s.len(),
        decode_track(s) matches Err((e, _)) ==> (e.spec_is_eof() <==> s.len() == 0),
{
    if let Ok((_, after_tag)) = decode_tag_of(Tag::Track, s) {
        if let Ok((_, after_len)) = decode_u32(after_tag) {
            lemma_events_advance(after_len, None);
            lemma_events_fail_hard(after_len, None);
        }
    }
}

/// The events of a track never fail for a clean end of the input.
pub proof fn lemma_events_fail_hard(s: Seq<u8>, running: Option<u8>)
    ensures
        decode_events(s, running) matches Err((e, _)) ==> !e.spec_is_eof(),
    decreases s.len(),
{
    lemma_track_event_advances(s, running);
    if let Ok(((first, status), rest)) = decode_track_event(s, running) {
        if !first.event.is_end() {
            lemma_events_fail_hard(rest, Some(status));
        }
    }
}

/// The events read so far, followed by what the rest of the input gives.
spec fn events_then(seen: Seq<TrackEventView>, then: Decoded<Seq<TrackEventView>>) -> Decoded<
    Seq<TrackEventView>,
> {
    match then {
        Ok((more, rest)) => Ok((seen + more, rest)),
        Err(e) => Err(e),
    }
}

impl TrackChunk {
    /// The tag of a track chunk is the track tag.
    #[verifier::type_invariant]
    spec fn inv(self) -> bool {
        self.tag == Tag::Track
    }

    /// The tag that starts the chunk: the track tag.
    pub fn tag(&self) -> (r: Tag)
        ensures
            r == self@.tag,
            r == Tag::Track,
    {
        proof {
            use_type_invariant(self);
        }
        self.tag
    }

    /// The length that the chunk declares for itself.
    pub fn track_len(&self) -> (r: u32)
        ensures
            r == self@.track_len,
    {
        self.track_len
    }

    /// The events of the track, in the order of the file.
    pub fn events(&self) -> (r: &Vec<TrackEvent>)
        ensures
            r@.map_values(|e: TrackEvent| e@) == self@.events,
    {
        &self.events
    }

    /// Reads a track chunk.  The track ends with its end-of-track event;
    /// where the input ends first, between two events, the track ends there,
    /// and that is no failure.
    pub fn read(buf: &mut ByteReader) -> (r: Result<TrackChunk, ParseError>)
        ensures
            final(buf).follows(*old(buf)),
            match r {
                Ok(v) => decode_track(old(buf)@) == done(v@, final(buf)@) && v@.wf() && v@.tag
                    == Tag::Track,
                Err(e) => decode_track(old(buf)@) == failed::<TrackChunkView>(e, final(buf)@),
            },
    {
        let tag = Tag::read_as(buf, Tag::Track)?;
        let track_len = buf.read_u32()?;
        let mut events: Vec<TrackEvent> = Vec::new();
        let mut running: Option<u8> = None;
        let mut closed = false;
        let ghost start = buf@;
        while !closed
            invariant
                buf.follows(*old(buf)),
                tag == Tag::Track,
                decode_tag_of(Tag::Track, old(buf)@) matches Ok((t, after)) && t == tag
                    && decode_u32(after) == done(track_len, start),
                decode_events(start, None) == events_then(
                    events@.map_values(|e: TrackEvent| e@),
                    if closed {
                        Ok((Seq::empty(), buf@))
                    } else {
                        decode_events(buf@, running)
                    },
                ),
                forall|i: int| 0 <= i < events.len() ==> (#[trigger] events[i])@.wf(),
                forall|i: int|
                    0 <= i < events.len() - 1 ==> !(#[trigger] events[i])@.event.is_end(),
                !closed && events.len() > 0 ==> !events[events.len() - 1]@.event.is_end(),
            decreases buf@.len() + (if closed { 0int } else { 1int }),
        {
            let ghost before = buf@;
            let ghost seen = events@.map_values(|e: TrackEvent| e@);
            proof {
                lemma_track_event_advances(before, running);
            }
            match TrackEvent::read(buf, running) {
                Ok((event, status)) => {
                    closed = event.event.is_end();
                    events.push(event);
                    running = Some(status);
                    proof {
                        let now = events@.map_values(|e: TrackEvent| e@);
                        assert(now == seen.push(event@));
                        if !closed {
                            if let Ok((more, rest)) = decode_events(buf@, running) {
                                assert(seen + (seq![event@] + more) == now + more);
                            }
                        } else {
                            assert(seen + seq![event@] == now + Seq::empty());
                        }
                    }
                },
                Err(e) => {
                    if e.is_eof() {
                        closed = true;
                        assert(buf@ == before);
                    } else {
                        return Err(e);
                    }
                },
            }
        }
        proof {
            let now = events@.map_values(|e: TrackEvent| e@);
            assert(now + Seq::empty() == now);
        }
        let track = TrackChunk { tag, track_len, events };
        assert(track@.wf());
        Ok(track)
    }
}

} // verus!
