//! A verified decoder for Standard MIDI Files.
//!
//! The decoder lives in [`midi::formats`]: it turns the bytes of a file into
//! an [`midi::formats::Smf`], a header and the tracks that follow it, each
//! track a list of time-stamped events.  Every decoding function is specified
//! by a mathematical function on byte sequences and proved to compute it, and
//! no function of the library panics.
//!
//! [`controller`] and [`midi::midi`] hold the little that a live source of
//! notes needs.

pub mod controller;
pub mod midi;
