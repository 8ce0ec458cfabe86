use midi_smf::controller::Controller;
use midi_smf::midi::midi::{KeyCode, MidiMessage, VariableLenVal};

struct Silent;

impl Controller for Silent {
    type InputMsg = u8;
    type OutputMsg = MidiMessage;

    fn get_connect(&self) -> u8 {
        7
    }
}

struct Pressed(u8);

impl Controller for Pressed {
    type InputMsg = ();
    type OutputMsg = MidiMessage;

    fn get_connect(&self) {}

    fn output(&self) -> Option<MidiMessage> {
        Some(MidiMessage::of_key(true, self.0))
    }
}

#[test]
fn controller_has_no_output_unless_it_says_so() {
    assert_eq!(Silent.get_connect(), 7);
    assert_eq!(Silent.output(), None);
    assert_eq!(Pressed(60).output(), Some(MidiMessage::NoteOn(KeyCode(60))));
}

#[test]
fn key_down_is_note_on_and_key_up_is_note_off() {
    assert_eq!(MidiMessage::of_key(true, 60), MidiMessage::NoteOn(KeyCode(60)));
    assert_eq!(MidiMessage::of_key(false, 60), MidiMessage::NoteOff(KeyCode(60)));
    assert_eq!(MidiMessage::of_key(true, 255), MidiMessage::NoteOn(KeyCode(255)));
    assert_eq!(KeyCode::MIN, 0);
    assert_eq!(KeyCode::MAX, 127);
}

#[test]
fn number_of_up_to_two_bytes() {
    assert_eq!(VariableLenVal::new(vec![]).to_real_value(), 0);
    assert_eq!(VariableLenVal::new(vec![0x00]).to_real_value(), 0);
    assert_eq!(VariableLenVal::new(vec![82]).to_real_value(), 82);
    assert_eq!(VariableLenVal::new(vec![0xFF]).to_real_value(), 255);
    assert_eq!(VariableLenVal::new(vec![0x80, 0x00]).to_real_value(), 32768);
    assert_eq!(VariableLenVal::new(vec![80, 00]).to_real_value(), 20480);
    assert_eq!(VariableLenVal::new(vec![0x01, 0x02]).to_real_value(), 0x0102);
    assert_eq!(VariableLenVal::new(vec![0xFF, 0xFF]).to_real_value(), 65535);
}
