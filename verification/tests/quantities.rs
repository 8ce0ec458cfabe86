use midi_smf::midi::formats::{ByteReader, IoFailure, ParseError, Slice, U14, U28, U7};

/// The variable-length quantity that stands for `v`.
fn vlq(v: u32) -> Vec<u8> {
    let mut bytes = vec![(v & 0x7F) as u8];
    let mut left = v >> 7;
    while left > 0 {
        bytes.insert(0, (left & 0x7F) as u8 | 0x80);
        left >>= 7;
    }
    bytes
}

#[test]
fn vlq_encoder_of_the_tests_gives_the_known_codes() {
    assert_eq!(vlq(0), vec![0x00]);
    assert_eq!(vlq(0x7F), vec![0x7F]);
    assert_eq!(vlq(0x80), vec![0x81, 0x00]);
    assert_eq!(vlq(0x2000), vec![0xC0, 0x00]);
    assert_eq!(vlq(0x3FFF), vec![0xFF, 0x7F]);
    assert_eq!(vlq(0x4000), vec![0x81, 0x80, 0x00]);
    assert_eq!(vlq(0x1F_FFFF), vec![0xFF, 0xFF, 0x7F]);
    assert_eq!(vlq(0x20_0000), vec![0x81, 0x80, 0x80, 0x00]);
    assert_eq!(vlq(0x0FFF_FFFF), vec![0xFF, 0xFF, 0xFF, 0x7F]);
}

#[test]
fn u28_round_trip_at_the_edges_of_each_width() {
    for v in [
        0u32, 1, 0x40, 0x7F, 0x80, 0x81, 0x2000, 0x3FFF, 0x4000, 0x4001, 0x10_0000, 0x1F_FFFF,
        0x20_0000, 0x20_0001, 0x800_0000, 0x0FFF_FFFE, 0x0FFF_FFFF,
    ] {
        let mut bytes = vlq(v);
        bytes.push(0xAB);
        let mut buf = ByteReader::new(&bytes);
        assert_eq!(U28::read(&mut buf), Ok(U28(v)));
        assert_eq!(buf.remaining(), 1);
        assert_eq!(buf.peek(), Some(0xAB));
    }
}

#[test]
fn u28_round_trip_over_a_sweep_of_values() {
    let mut v: u32 = 0;
    while v < 0x1000_0000 {
        let bytes = vlq(v);
        let mut buf = ByteReader::new(&bytes);
        assert_eq!(U28::read(&mut buf), Ok(U28(v)));
        assert!(buf.is_empty());
        v += 4093;
    }
}

#[test]
fn u28_leaves_what_follows_the_closing_byte() {
    let bytes = [0x82u8, 0x80, 0x00, 0xff];
    let mut buf = ByteReader::new(&bytes);
    assert_eq!(U28::read(&mut buf), Ok(U28(32768)));
    assert_eq!(buf.remaining(), 1);
    assert_eq!(buf.read_u8(), Ok(0xff));
    let bytes = [0x81u8, 0x7f, 0xff];
    let mut buf = ByteReader::new(&bytes);
    assert_eq!(U28::read(&mut buf), Ok(U28(255)));
    assert_eq!(buf.remaining(), 1);
}

#[test]
fn u28_stops_at_the_fourth_byte_whatever_its_top_bit() {
    let bytes = [0xFFu8, 0xFF, 0xFF, 0xFF, 0x01];
    let mut buf = ByteReader::new(&bytes);
    assert_eq!(U28::read(&mut buf), Ok(U28(0x0FFF_FFFF)));
    assert_eq!(buf.remaining(), 1);
    let bytes = [0x80u8, 0x80, 0x80, 0x80];
    let mut buf = ByteReader::new(&bytes);
    assert_eq!(U28::read(&mut buf), Ok(U28(0)));
    assert!(buf.is_empty());
    let bytes = [0x81u8, 0x82, 0x83, 0x84];
    let mut buf = ByteReader::new(&bytes);
    assert_eq!(U28::read(&mut buf), Ok(U28((1 << 21) + (2 << 14) + (3 << 7) + 4)));
}

#[test]
fn u28_of_one_byte() {
    let bytes = [0x00u8];
    let mut buf = ByteReader::new(&bytes);
    assert_eq!(U28::read(&mut buf), Ok(U28(0)));
    let bytes = [0x7Fu8, 0x7F];
    let mut buf = ByteReader::new(&bytes);
    assert_eq!(U28::read(&mut buf), Ok(U28(127)));
    assert_eq!(buf.remaining(), 1);
}

#[test]
fn u28_cut_short_is_truncated() {
    for bytes in [vec![], vec![0x80u8], vec![0x81, 0x80], vec![0xFF, 0xFF, 0xFF]] {
        let mut buf = ByteReader::new(&bytes);
        assert_eq!(U28::read(&mut buf), Err(ParseError::IOError(IoFailure::Truncated)));
    }
}

#[test]
fn u7_takes_a_byte_below_0x80() {
    let bytes = [0x7Fu8];
    let mut buf = ByteReader::new(&bytes);
    assert_eq!(U7::read(&mut buf), Ok(U7(127)));
    assert!(buf.is_empty());
    let bytes = [0x00u8, 0x01];
    let mut buf = ByteReader::new(&bytes);
    assert_eq!(U7::read(&mut buf), Ok(U7(0)));
    assert_eq!(buf.remaining(), 1);
}

#[test]
fn u7_refuses_a_byte_from_0x80_on() {
    let bytes = [0x80u8];
    let mut buf = ByteReader::new(&bytes);
    assert_eq!(U7::read(&mut buf), Err(ParseError::NotData(128)));
    let bytes = [0xFFu8];
    let mut buf = ByteReader::new(&bytes);
    assert_eq!(U7::read(&mut buf), Err(ParseError::NotData(255)));
    let bytes: [u8; 0] = [];
    let mut buf = ByteReader::new(&bytes);
    assert_eq!(U7::read(&mut buf), Err(ParseError::IOError(IoFailure::Truncated)));
}

#[test]
fn u7_that_is_refused_has_been_read() {
    let bytes = [0x80u8, 0x01];
    let mut buf = ByteReader::new(&bytes);
    assert_eq!(U7::read(&mut buf), Err(ParseError::NotData(128)));
    assert_eq!(buf.remaining(), 1);
    assert_eq!(U7::read(&mut buf), Ok(U7(1)));
    assert_eq!(U7::read(&mut buf), Err(ParseError::IOError(IoFailure::Truncated)));
    assert_eq!(buf.remaining(), 0);
}

#[test]
fn u28_cut_short_has_been_read_to_the_end() {
    let bytes = [0x81u8, 0x82];
    let mut buf = ByteReader::new(&bytes);
    assert_eq!(U28::read(&mut buf), Err(ParseError::IOError(IoFailure::Truncated)));
    assert_eq!(buf.remaining(), 0);
}

#[test]
fn u14_cut_short_has_not_been_read() {
    let bytes = [0x54u8];
    let mut buf = ByteReader::new(&bytes);
    assert_eq!(U14::read(&mut buf), Err(ParseError::IOError(IoFailure::Truncated)));
    assert_eq!(buf.remaining(), 1);
}

#[test]
fn slice_cut_short_has_lost_its_length_only() {
    let bytes = [0x03u8, 0x01, 0x02];
    let mut buf = ByteReader::new(&bytes);
    assert_eq!(Slice::read(&mut buf).unwrap_err(), ParseError::IOError(IoFailure::Truncated));
    assert_eq!(buf.remaining(), 2);
}

#[test]
fn u14_takes_the_low_seven_bits_first() {
    let bytes = [0x7Fu8, 0x00];
    let mut buf = ByteReader::new(&bytes);
    assert_eq!(U14::read(&mut buf), Ok(U14(0x7F)));
    let bytes = [0x00u8, 0x7F];
    let mut buf = ByteReader::new(&bytes);
    assert_eq!(U14::read(&mut buf), Ok(U14(0x3F80)));
    let bytes = [0x00u8, 0x40];
    let mut buf = ByteReader::new(&bytes);
    assert_eq!(U14::read(&mut buf), Ok(U14(8192)));
    let bytes = [0x7Fu8, 0x7F, 0x01];
    let mut buf = ByteReader::new(&bytes);
    assert_eq!(U14::read(&mut buf), Ok(U14(16383)));
    assert_eq!(buf.remaining(), 1);
}

#[test]
fn u14_ignores_the_top_bits() {
    let bytes = [0xD4u8, 0xB9];
    let mut buf = ByteReader::new(&bytes);
    assert_eq!(U14::read(&mut buf), Ok(U14(0x1CD4)));
    let bytes = [0xFFu8, 0xFF];
    let mut buf = ByteReader::new(&bytes);
    assert_eq!(U14::read(&mut buf), Ok(U14(0x3FFF)));
}

#[test]
fn u14_cut_short_is_truncated() {
    let bytes = [0x54u8];
    let mut buf = ByteReader::new(&bytes);
    assert_eq!(U14::read(&mut buf), Err(ParseError::IOError(IoFailure::Truncated)));
}

#[test]
fn reader_reads_big_endian_numbers() {
    let bytes = [0x12u8, 0x34, 0x56, 0x78, 0x9A, 0xBC, 0xFF, 0xFE, 0x80, 0x00, 0x7F, 0xFF, 0x01];
    let mut buf = ByteReader::new(&bytes);
    assert_eq!(buf.remaining(), 13);
    assert_eq!(buf.read_u32(), Ok(0x1234_5678));
    assert_eq!(buf.read_u16(), Ok(0x9ABC));
    assert_eq!(buf.read_i16(), Ok(-2));
    assert_eq!(buf.read_i16(), Ok(-32768));
    assert_eq!(buf.read_i16(), Ok(32767));
    assert_eq!(buf.peek(), Some(0x01));
    assert_eq!(buf.read_u8(), Ok(0x01));
    assert!(buf.is_empty());
    assert_eq!(buf.peek(), None);
}

#[test]
fn reader_reads_the_largest_numbers() {
    let bytes = [0xFFu8, 0xFF, 0xFF, 0xFF, 0xFF, 0xFF, 0xFF, 0xFF];
    let mut buf = ByteReader::new(&bytes);
    assert_eq!(buf.read_u32(), Ok(u32::MAX));
    assert_eq!(buf.read_u16(), Ok(u16::MAX));
    assert_eq!(buf.read_i16(), Ok(-1));
}

#[test]
fn reader_fails_and_stays_where_too_few_bytes_are_left() {
    let bytes = [0x01u8, 0x02, 0x03];
    let mut buf = ByteReader::new(&bytes);
    assert_eq!(buf.read_u32(), Err(ParseError::IOError(IoFailure::Truncated)));
    assert_eq!(buf.remaining(), 3);
    assert_eq!(buf.read_bytes(4), Err(ParseError::IOError(IoFailure::Truncated)));
    assert_eq!(buf.remaining(), 3);
    assert_eq!(buf.read_u16(), Ok(0x0102));
    assert_eq!(buf.read_u16(), Err(ParseError::IOError(IoFailure::Truncated)));
    assert_eq!(buf.read_i16(), Err(ParseError::IOError(IoFailure::Truncated)));
    assert_eq!(buf.remaining(), 1);
    assert_eq!(buf.read_bytes(1), Ok(vec![0x03]));
    assert_eq!(buf.read_u8(), Err(ParseError::IOError(IoFailure::Truncated)));
    assert_eq!(buf.read_bytes(0), Ok(vec![]));
}

#[test]
fn slice_reads_as_many_bytes_as_its_length_says() {
    let mut bytes = vec![0x81u8, 0x00];
    bytes.extend(std::iter::repeat(0x5A).take(128));
    bytes.push(0x11);
    let mut buf = ByteReader::new(&bytes);
    let slice = Slice::read(&mut buf).unwrap();
    assert_eq!(slice.0, vec![0x5Au8; 128]);
    assert_eq!(buf.remaining(), 1);
}

#[test]
fn slice_cut_short_is_truncated() {
    let bytes = [0x03u8, 0x01, 0x02];
    let mut buf = ByteReader::new(&bytes);
    assert_eq!(Slice::read(&mut buf).unwrap_err(), ParseError::IOError(IoFailure::Truncated));
    let bytes: [u8; 0] = [];
    let mut buf = ByteReader::new(&bytes);
    assert_eq!(Slice::read(&mut buf).unwrap_err(), ParseError::IOError(IoFailure::Truncated));
}

#[test]
fn slice_to_u32_takes_up_to_four_bytes() {
    assert_eq!(Slice(vec![]).to_u32(), 0);
    assert_eq!(Slice(vec![0x01]).to_u32(), 1);
    assert_eq!(Slice(vec![0x01, 0x02]).to_u32(), 0x0102);
    assert_eq!(Slice(vec![0x01, 0x02, 0x03]).to_u32(), 0x01_0203);
    assert_eq!(Slice(vec![0x01, 0x02, 0x03, 0x04]).to_u32(), 0x0102_0304);
    assert_eq!(Slice(vec![0x01, 0x02, 0x03, 0x04, 0x05]).to_u32(), 0x0102_0304);
    assert_eq!(Slice(vec![0xFF, 0xFF, 0xFF, 0xFF, 0xFF, 0xFF]).to_u32(), u32::MAX);
}

#[test]
fn slice_to_ascii_escapes_what_does_not_print() {
    assert_eq!(Slice(vec![]).to_ascii(), "");
    assert_eq!(Slice(vec![0x09]).to_ascii(), "\\t");
    assert_eq!(Slice(vec![0x0D]).to_ascii(), "\\r");
    assert_eq!(Slice(vec![0x0A]).to_ascii(), "\\n");
    assert_eq!(Slice(vec![0x5C]).to_ascii(), "\\\\");
    assert_eq!(Slice(vec![0x27]).to_ascii(), "\\'");
    assert_eq!(Slice(vec![0x22]).to_ascii(), "\\\"");
    assert_eq!(Slice(vec![0x00]).to_ascii(), "\\x00");
    assert_eq!(Slice(vec![0x1F]).to_ascii(), "\\x1f");
    assert_eq!(Slice(vec![0x7F]).to_ascii(), "\\x7f");
    assert_eq!(Slice(vec![0x80]).to_ascii(), "\\x80");
    assert_eq!(Slice(vec![0x9A]).to_ascii(), "\\x9a");
    assert_eq!(Slice(vec![0xAB]).to_ascii(), "\\xab");
    assert_eq!(Slice(vec![0xFF]).to_ascii(), "\\xff");
}

#[test]
fn slice_to_ascii_keeps_what_prints() {
    assert_eq!(Slice(vec![0x20]).to_ascii(), " ");
    assert_eq!(Slice(vec![0x7E]).to_ascii(), "~");
    assert_eq!(Slice(vec![0x21, 0x23, 0x26, 0x28]).to_ascii(), "!#&(");
    let printable: Vec<u8> = (0x20u8..=0x7E).filter(|b| ![0x22, 0x27, 0x5C].contains(b)).collect();
    let expected: String = printable.iter().map(|b| *b as char).collect();
    assert_eq!(Slice(printable).to_ascii(), expected);
}

#[test]
fn slice_to_ascii_escapes_each_byte_by_itself() {
    let text = Slice(vec![0x41, 0x09, 0x42, 0x00, 0x5C, 0x43, 0xC3, 0xA9]);
    assert_eq!(text.to_ascii(), "A\\tB\\x00\\\\C\\xc3\\xa9");
}
