//! Notes as a keyboard sends them, and short numbers as bytes spell them.

use super::formats::slice::{big_endian, lemma_big_endian_short};
use vstd::prelude::*;

verus! {

/// The number of a key.
#[derive(Debug, Clone, Copy, PartialEq, Eq)]
pub struct KeyCode(pub u8);

impl KeyCode {
    /// The lowest key.
    pub const MIN: u8 = 0;

    /// The highest key.
    pub const MAX: u8 = 127;
}

/// What a key does.
#[derive(Debug, Clone, Copy, PartialEq, Eq)]
pub enum MidiMessage {
    NoteOn(KeyCode),
    NoteOff(KeyCode),
}

impl MidiMessage {
    /// The message for a key that goes down, if `on`, or up.
    pub fn of_key(on: bool, code: u8) -> (msg: MidiMessage)
        ensures
            msg == (if on {
                MidiMessage::NoteOn(KeyCode(code))
            } else {
                MidiMessage::NoteOff(KeyCode(code))
            }),
    {
        if on {
            MidiMessage::NoteOn(KeyCode(code))
        } else {
            MidiMessage::NoteOff(KeyCode(code))
        }
    }
}

/// A number as its bytes, the most significant first.
#[derive(Debug)]
pub struct VariableLenVal {
    inner: Vec<u8>,
}

impl View for VariableLenVal {
    type V = Seq<u8>;

    closed spec fn view(&self) -> Seq<u8> {
        self.inner@
    }
}

impl VariableLenVal {
    /// The number that the bytes `inner` spell.
    pub fn new(inner: Vec<u8>) -> (r: Self)
        ensures
            r@ == inner@,
    {
        Self { inner }
    }

    /// The number, which must be of two bytes at most to fit its type: each
    /// byte is moved up by eight bits for every byte behind it.
    pub fn to_real_value(self) -> (total: u16)
        requires
            self@.len() <= 2,
        ensures
            total == big_endian(self@),
    {
        let len = self.inner.len();
        let ghost s = self.inner@;
        let mut total: u16 = 0;
        let mut index: usize = 0;
        while index < len
            invariant
                s == self.inner@,
                len == s.len(),
                len <= 2,
                index <= len,
                index == 0 ==> total == 0,
                index == 1 ==> total == (if len == 1 {
                    s[0] as int
                } else {
                    s[0] * 0x100
                }),
                index == 2 ==> total == s[0] * 0x100 + s[1],
            decreases len - index,
        {
            let byte = self.inner[index] as u16;
            let shift: usize = (len - index - 1) * 8;
            let moved: u16 = byte << shift;
            assert(moved == (if shift == 0 {
                byte as int
            } else {
                byte * 0x100
            })) by (bit_vector)
                requires
                    moved == byte << shift,
                    shift == 0 || shift == 8,
                    byte < 0x100,
            ;
            total = total + moved;
            index = index + 1;
        }
        proof {
            lemma_big_endian_short(s);
        }
        total
    }
}

} // verus!
