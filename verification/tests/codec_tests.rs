use psu_driver::codec::{decode_line, encode, sanitize, trim, LineAccumulator};

#[test]
fn encode_appends_terminator() {
    assert_eq!(encode("MEAS:ALL?"), b"MEAS:ALL?\r\n".to_vec());
    assert_eq!(encode(""), b"\r\n".to_vec());
}

#[test]
fn decode_line_full_line() {
    let (line, consumed) = decode_line(b"1.234,0.567\n");
    assert_eq!(line, Some(b"1.234,0.567".to_vec()));
    assert_eq!(consumed, 12);
}

#[test]
fn decode_line_empty_input_is_no_data() {
    let (line, consumed) = decode_line(b"");
    assert_eq!(line, None);
    assert_eq!(consumed, 0);
}

#[test]
fn decode_line_partial_without_terminator() {
    let (line, consumed) = decode_line(b"5.00");
    assert_eq!(line, Some(b"5.00".to_vec()));
    assert_eq!(consumed, 4);
}

#[test]
fn decode_line_carriage_return_is_not_a_terminator() {
    let (line, consumed) = decode_line(b"abc\rdef\n");
    assert_eq!(line, Some(b"abc\rdef".to_vec()));
    assert_eq!(consumed, 8);
}

#[test]
fn decode_line_stops_at_first_line_feed() {
    let (line, consumed) = decode_line(b"first\nsecond\n");
    assert_eq!(line, Some(b"first".to_vec()));
    assert_eq!(consumed, 6);
}

#[test]
fn trim_strips_surrounding_blanks() {
    assert_eq!(trim(b"  5.0\r\n"), b"5.0".to_vec());
    assert_eq!(trim(b"\t \r\n"), b"".to_vec());
    assert_eq!(trim(b"a b"), b"a b".to_vec());
}

#[test]
fn sanitize_drops_non_ascii_bytes() {
    let noisy = [0xC2u8, 0xAB, b'5', b'.', b'0'];
    assert_eq!(sanitize(&noisy), b"5.0".to_vec());
    assert_eq!(sanitize(b"5.0,1.0"), b"5.0,1.0".to_vec());
}

#[test]
fn accumulator_reports_terminator() {
    let mut acc = LineAccumulator::new();
    assert!(!acc.push(b'O'));
    assert!(!acc.push(b'K'));
    assert!(acc.push(b'\n'));
    assert_eq!(acc.finish(), Some(b"OK".to_vec()));
}

#[test]
fn accumulator_empty_yields_no_line() {
    let acc = LineAccumulator::new();
    assert_eq!(acc.finish(), None);
}

#[test]
fn encode_then_decode_round_trip() {
    // The outbound frame echoed back, followed by the device's literal
    // reply bytes: the decoded lines are the command and the trimmed reply.
    let mut stream = encode("MEAS:ALL?");
    stream.extend_from_slice(b"5.0000,0.2500\n");
    let (first, consumed) = decode_line(&stream);
    assert_eq!(first, Some(b"MEAS:ALL?".to_vec()));
    let (reply, rest) = decode_line(&stream[consumed..]);
    assert_eq!(reply, Some(b"5.0000,0.2500".to_vec()));
    assert_eq!(consumed + rest, stream.len());
}
