//! What a track event carries: a channel voice message, a meta message or a
//! system-exclusive payload.

use super::error::ParseError;
use super::quantity::{decode_u14, decode_u7, U14, U7};
use super::reader::{decode_u8, done, failed, ByteReader, Decoded};
use super::slice::{decode_slice, escape_bytes, leading_number, Slice};
use vstd::prelude::*;

verus! {

/// A channel voice message.
#[allow(inconsistent_fields)]
#[derive(Debug, Clone, Copy, PartialEq, Eq)]
pub enum MidiMessage {
    /// Stop playing a note.
    NoteOff { key: U7, vel: U7 },
    /// Start playing a note.
    NoteOn { key: U7, vel: U7 },
    /// Modify the velocity of a note after it has been played.
    Aftertouch { key: U7, vel: U7 },
    /// Modify the value of a MIDI controller.
    ControlChange { controller: U7, value: U7 },
    /// Change the program (also known as instrument) for a channel.
    PatchChange { program: U7 },
    /// Change the note velocity of a whole channel at once, without starting
    /// new notes.
    ChannelPressure { vel: U7 },
    /// Set the pitch bend value for the entire channel.
    PitchBend { value: U14 },
}

/// A meta message: a directive to whatever reads the file, not to an
/// instrument.
#[derive(Debug)]
pub enum MetaMessage {
    SequenceNumber(Slice),
    Text(String),
    Copyright(String),
    TrackName(String),
    InstrumentName(String),
    Lyric(String),
    Marker(String),
    CuePoint(String),
    ChannelPrefix(Slice),
    EndOfTrack(Slice),
    /// Microseconds per quarter note: 500000 stands for 120 quarter notes
    /// per minute.
    Tempo(u32),
    SmpteOffset(Slice),
    TimeSignature(Slice),
    KeySignature(Slice),
    SequencerSpecific(Slice),
    Unknown(Slice),
}

/// A [`MetaMessage`] as a mathematical value.
pub enum MetaMessageView {
    SequenceNumber(Seq<u8>),
    Text(Seq<char>),
    Copyright(Seq<char>),
    TrackName(Seq<char>),
    InstrumentName(Seq<char>),
    Lyric(Seq<char>),
    Marker(Seq<char>),
    CuePoint(Seq<char>),
    ChannelPrefix(Seq<u8>),
    EndOfTrack(Seq<u8>),
    Tempo(u32),
    SmpteOffset(Seq<u8>),
    TimeSignature(Seq<u8>),
    KeySignature(Seq<u8>),
    SequencerSpecific(Seq<u8>),
    Unknown(Seq<u8>),
}

impl View for MetaMessage {
    type V = MetaMessageView;

    open spec fn view(&self) -> MetaMessageView {
        match self {
            MetaMessage::SequenceNumber(data) => MetaMessageView::SequenceNumber(data@),
            MetaMessage::Text(text) => MetaMessageView::Text(text@),
            MetaMessage::Copyright(text) => MetaMessageView::Copyright(text@),
            MetaMessage::TrackName(text) => MetaMessageView::TrackName(text@),
            MetaMessage::InstrumentName(text) => MetaMessageView::InstrumentName(text@),
            MetaMessage::Lyric(text) => MetaMessageView::Lyric(text@),
            MetaMessage::Marker(text) => MetaMessageView::Marker(text@),
            MetaMessage::CuePoint(text) => MetaMessageView::CuePoint(text@),
            MetaMessage::ChannelPrefix(data) => MetaMessageView::ChannelPrefix(data@),
            MetaMessage::EndOfTrack(data) => MetaMessageView::EndOfTrack(data@),
            MetaMessage::Tempo(tempo) => MetaMessageView::Tempo(*tempo),
            MetaMessage::SmpteOffset(data) => MetaMessageView::SmpteOffset(data@),
            MetaMessage::TimeSignature(data) => MetaMessageView::TimeSignature(data@),
            MetaMessage::KeySignature(data) => MetaMessageView::KeySignature(data@),
            MetaMessage::SequencerSpecific(data) => MetaMessageView::SequencerSpecific(data@),
            MetaMessage::Unknown(data) => MetaMessageView::Unknown(data@),
        }
    }
}

/// What stands in a track behind a delta time.
#[derive(Debug)]
pub enum Event {
    Meta { meta_msg: MetaMessage },
    Midi { channel: u8, midi_msg: MidiMessage },
    Sysex { sysex_msg: Slice },
}

/// An [`Event`] as a mathematical value.
pub enum EventView {
    Meta { meta_msg: MetaMessageView },
    Midi { channel: u8, midi_msg: MidiMessage },
    Sysex { sysex_msg: Seq<u8> },
}

impl View for Event {
    type V = EventView;

    open spec fn view(&self) -> EventView {
        match self {
            Event::Meta { meta_msg } => EventView::Meta { meta_msg: meta_msg@ },
            Event::Midi { channel, midi_msg } => EventView::Midi {
                channel: *channel,
                midi_msg: *midi_msg,
            },
            Event::Sysex { sysex_msg } => EventView::Sysex { sysex_msg: sysex_msg@ },
        }
    }
}

impl MidiMessage {
    /// Every data byte is below 0x80 and the pitch-bend value below 0x4000.
    pub open spec fn wf(self) -> bool {
        match self {
            MidiMessage::NoteOff { key, vel } => key.0 < 0x80 && vel.0 < 0x80,
            MidiMessage::NoteOn { key, vel } => key.0 < 0x80 && vel.0 < 0x80,
            MidiMessage::Aftertouch { key, vel } => key.0 < 0x80 && vel.0 < 0x80,
            MidiMessage::ControlChange { controller, value } => controller.0 < 0x80 && value.0
                < 0x80,
            MidiMessage::PatchChange { program } => program.0 < 0x80,
            MidiMessage::ChannelPressure { vel } => vel.0 < 0x80,
            MidiMessage::PitchBend { value } => value.0 < 0x4000,
        }
    }

    /// The message class: the high four bits of the status byte that
    /// announces such a message.
    pub open spec fn command(self) -> u8 {
        match self {
            MidiMessage::NoteOff { .. } => 0x8,
            MidiMessage::NoteOn { .. } => 0x9,
            MidiMessage::Aftertouch { .. } => 0xA,
            MidiMessage::ControlChange { .. } => 0xB,
            MidiMessage::PatchChange { .. } => 0xC,
            MidiMessage::ChannelPressure { .. } => 0xD,
            MidiMessage::PitchBend { .. } => 0xE,
        }
    }
}

impl EventView {
    /// Whether this is the meta event that ends a track.
    pub open spec fn is_end(self) -> bool {
        self matches EventView::Meta { meta_msg } && meta_msg is EndOfTrack
    }

    /// A channel voice event has a channel below 16 and data in range.
    pub open spec fn wf(self) -> bool {
        self matches EventView::Midi { channel, midi_msg } ==> channel < 16 && midi_msg.wf()
    }
}

/// Two data bytes.
pub open spec fn decode_u7_pair(s: Seq<u8>) -> Decoded<(U7, U7)> {
    match decode_u7(s) {
        Ok((first, rest)) => match decode_u7(rest) {
            Ok((second, rest)) => Ok(((first, second), rest)),
            Err(e) => Err(e),
        },
        Err(e) => Err(e),
    }
}

/// The data of a channel voice message of class `command`, 0x8 to 0xE:
/// one data byte for a patch change and for channel pressure, the two bytes
/// of its value for a pitch bend, and two data bytes for the other classes.
pub open spec fn decode_midi(command: u8, s: Seq<u8>) -> Decoded<MidiMessage> {
    if command == 0xC || command == 0xD {
        match decode_u7(s) {
            Ok((data, rest)) => Ok(
                (
                    if command == 0xC {
                        MidiMessage::PatchChange { program: data }
                    } else {
                        MidiMessage::ChannelPressure { vel: data }
                    },
                    rest,
                ),
            ),
            Err(e) => Err(e),
        }
    } else if command == 0xE {
        match decode_u14(s) {
            Ok((value, rest)) => Ok((MidiMessage::PitchBend { value }, rest)),
            Err(e) => Err(e),
        }
    } else {
        match decode_u7_pair(s) {
            Ok(((first, second), rest)) => Ok(
                (
                    if command == 0x8 {
                        MidiMessage::NoteOff { key: first, vel: second }
                    } else if command == 0x9 {
                        MidiMessage::NoteOn { key: first, vel: second }
                    } else if command == 0xA {
                        MidiMessage::Aftertouch { key: first, vel: second }
                    } else {
                        MidiMessage::ControlChange { controller: first, value: second }
                    },
                    rest,
                ),
            ),
            Err(e) => Err(e),
        }
    }
}

/// The meta message of type `kind` with the payload `data`.  The text types
/// 0x01 to 0x07 show their payload as escaped text, the tempo reads it as a
/// number, and the others keep it as it is; a type that is not known is no
/// failure.
pub open spec fn meta_message(kind: u8, data: Seq<u8>) -> MetaMessageView {
    if kind == 0x00 {
        MetaMessageView::SequenceNumber(data)
    } else if kind == 0x01 {
        MetaMessageView::Text(escape_bytes(data))
    } else if kind == 0x02 {
        MetaMessageView::Copyright(escape_bytes(data))
    } else if kind == 0x03 {
        MetaMessageView::TrackName(escape_bytes(data))
    } else if kind == 0x04 {
        MetaMessageView::InstrumentName(escape_bytes(data))
    } else if kind == 0x05 {
        MetaMessageView::Lyric(escape_bytes(data))
    } else if kind == 0x06 {
        MetaMessageView::Marker(escape_bytes(data))
    } else if kind == 0x07 {
        MetaMessageView::CuePoint(escape_bytes(data))
    } else if kind == 0x20 {
        MetaMessageView::ChannelPrefix(data)
    } else if kind == 0x2F {
        MetaMessageView::EndOfTrack(data)
    } else if kind == 0x51 {
        MetaMessageView::Tempo(leading_number(data) as u32)
    } else if kind == 0x54 {
        MetaMessageView::SmpteOffset(data)
    } else if kind == 0x58 {
        MetaMessageView::TimeSignature(data)
    } else if kind == 0x59 {
        MetaMessageView::KeySignature(data)
    } else if kind == 0x7F {
        MetaMessageView::SequencerSpecific(data)
    } else {
        MetaMessageView::Unknown(data)
    }
}

/// A meta message behind its status byte: the type, then the payload with
/// its length.
pub open spec fn decode_meta(s: Seq<u8>) -> Decoded<MetaMessageView> {
    match decode_u8(s) {
        Ok((kind, rest)) => match decode_slice(rest) {
            Ok((data, rest)) => Ok((meta_message(kind, data), rest)),
            Err(e) => Err(e),
        },
        Err(e) => Err(e),
    }
}

/// The event that the status byte `status`, 0x80 or above, announces.
/// 0x80 to 0xEF is a channel voice message, of the class in the high four
/// bits and on the channel in the low four; 0xF0 and 0xF7 are system
/// exclusive, 0xFF is meta, and the rest of 0xF1 to 0xFE is not supported.
pub open spec fn decode_event(status: u8, s: Seq<u8>) -> Decoded<EventView> {
    if status < 0xF0 {
        match decode_midi(status / 16, s) {
            Ok((midi_msg, rest)) => Ok((EventView::Midi { channel: status % 16, midi_msg }, rest)),
            Err(e) => Err(e),
        }
    } else if status == 0xF0 || status == 0xF7 {
        match decode_slice(s) {
            Ok((sysex_msg, rest)) => Ok((EventView::Sysex { sysex_msg }, rest)),
            Err(e) => Err(e),
        }
    } else if status == 0xFF {
        match decode_meta(s) {
            Ok((meta_msg, rest)) => Ok((EventView::Meta { meta_msg }, rest)),
            Err(e) => Err(e),
        }
    } else {
        Err((ParseError::NotSupportedSystemMessage(status), s))
    }
}

impl MidiMessage {
    /// Reads the data of a channel voice message of class `command`.
    pub fn read(buf: &mut ByteReader, command: u8) -> (r: Result<MidiMessage, ParseError>)
        requires
            0x8 <= command <= 0xE,
        ensures
            final(buf).follows(*old(buf)),
            match r {
                Ok(v) => decode_midi(command, old(buf)@) == done(v, final(buf)@)
                    && v.wf() && v.command() == command,
                Err(e) => decode_midi(command, old(buf)@) == failed::<MidiMessage>(
                    e,
                    final(buf)@,
                ),
            },
    {
        if command == 0x8 {
            let key = U7::read(buf)?;
            let vel = U7::read(buf)?;
            Ok(MidiMessage::NoteOff { key, vel })
        } else if command == 0x9 {
            let key = U7::read(buf)?;
            let vel = U7::read(buf)?;
            Ok(MidiMessage::NoteOn { key, vel })
        } else if command == 0xA {
            let key = U7::read(buf)?;
            let vel = U7::read(buf)?;
            Ok(MidiMessage::Aftertouch { key, vel })
        } else if command == 0xB {
            let controller = U7::read(buf)?;
            let value = U7::read(buf)?;
            Ok(MidiMessage::ControlChange { controller, value })
        } else if command == 0xC {
            let program = U7::read(buf)?;
            Ok(MidiMessage::PatchChange { program })
        } else if command == 0xD {
            let vel = U7::read(buf)?;
            Ok(MidiMessage::ChannelPressure { vel })
        } else {
            let value = U14::read(buf)?;
            Ok(MidiMessage::PitchBend { value })
        }
    }
}

impl MetaMessage {
    /// Reads a meta message, the status byte 0xFF having been read.
    pub fn read(buf: &mut ByteReader) -> (r: Result<MetaMessage, ParseError>)
        ensures
            final(buf).follows(*old(buf)),
            match r {
                Ok(v) => decode_meta(old(buf)@) == done(v@, final(buf)@),
                Err(e) => decode_meta(old(buf)@) == failed::<MetaMessageView>(e, final(buf)@),
            },
    {
        let kind = buf.read_u8()?;
        let data = Slice::read(buf)?;
        Ok(
            if kind == 0x00 {
                MetaMessage::SequenceNumber(data)
            } else if kind == 0x01 {
                MetaMessage::Text(data.to_ascii())
            } else if kind == 0x02 {
                MetaMessage::Copyright(data.to_ascii())
            } else if kind == 0x03 {
                MetaMessage::TrackName(data.to_ascii())
            } else if kind == 0x04 {
                MetaMessage::InstrumentName(data.to_ascii())
            } else if kind == 0x05 {
                MetaMessage::Lyric(data.to_ascii())
            } else if kind == 0x06 {
                MetaMessage::Marker(data.to_ascii())
            } else if kind == 0x07 {
                MetaMessage::CuePoint(data.to_ascii())
            } else if kind == 0x20 {
                MetaMessage::ChannelPrefix(data)
            } else if kind == 0x2F {
                MetaMessage::EndOfTrack(data)
            } else if kind == 0x51 {
                MetaMessage::Tempo(data.to_u32())
            } else if kind == 0x54 {
                MetaMessage::SmpteOffset(data)
            } else if kind == 0x58 {
                MetaMessage::TimeSignature(data)
            } else if kind == 0x59 {
                MetaMessage::KeySignature(data)
            } else if kind == 0x7F {
                MetaMessage::SequencerSpecific(data)
            } else {
                MetaMessage::Unknown(data)
            },
        )
    }
}

impl Event {
    /// Whether this is the meta event that ends a track.
    pub fn is_end(&self) -> (r: bool)
        ensures
            r == self@.is_end(),
    {
        match self {
            Event::Meta { meta_msg } => match meta_msg {
                MetaMessage::EndOfTrack(_) => true,
                _ => false,
            },
            _ => false,
        }
    }

    /// Reads the event that the status byte `status` announces, the status
    /// byte itself having been read or carried over.
    pub fn read(buf: &mut ByteReader, status: u8) -> (r: Result<Event, ParseError>)
        requires
            status >= 0x80,
        ensures
            final(buf).follows(*old(buf)),
            match r {
                Ok(v) => decode_event(status, old(buf)@) == done(v@, final(buf)@) && v@.wf(),
                Err(e) => decode_event(status, old(buf)@) == failed::<EventView>(e, final(buf)@),
            },
    {
        let high: u8 = status >> 4;
        let low: u8 = status & 0xF;
        assert(high == status / 16 && low == status % 16) by (bit_vector)
            requires
                high == status >> 4,
                low == status & 0xF,
        ;
        if high < 0xF {
            let midi_msg = MidiMessage::read(buf, high)?;
            Ok(Event::Midi { channel: low, midi_msg })
        } else if low == 0x0 || low == 0x7 {
            let sysex_msg = Slice::read(buf)?;
            Ok(Event::Sysex { sysex_msg })
        } else if low == 0xF {
            let meta_msg = MetaMessage::read(buf)?;
            Ok(Event::Meta { meta_msg })
        } else {
            Err(ParseError::NotSupportedSystemMessage(status))
        }
    }
}

} // verus!
