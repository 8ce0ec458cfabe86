//! The Standard MIDI File container and the decoder for it.
//!
//! A file is a header chunk and, behind it, track chunks.  A track chunk is
//! a list of events, each behind the time that separates it from the event
//! before.  An event is a channel voice message, a meta message or a
//! system-exclusive payload.
//!
//! Every `read` function is specified by a `decode_*` function on byte
//! sequences, which says what stands at the start of the bytes and what
//! bytes follow it, or how decoding fails and what bytes are left unread
//! then.  [`laws`] holds what is proved of these functions on every input.

pub mod chunk;
pub mod error;
pub mod laws;
pub mod message;
pub mod prefix;
pub mod quantity;
pub mod reader;
pub mod slice;
pub mod smf;
pub mod track;

pub use chunk::{Format, HeaderChunk, HeaderChunkView, Tag};
pub use error::{IoFailure, ParseError};
pub use message::{Event, EventView, MetaMessage, MetaMessageView, MidiMessage};
pub use quantity::{U14, U28, U7};
pub use reader::ByteReader;
pub use slice::Slice;
pub use smf::{Smf, SmfView};
pub use track::{TrackChunk, TrackChunkView, TrackEvent, TrackEventView};
