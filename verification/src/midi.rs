//! MIDI data: the file format, and notes as a keyboard sends them.

pub mod formats;
pub mod midi;
