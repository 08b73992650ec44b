use mcscan::error::ScanError;
use mcscan::frame::{handshake_bytes, parse_response, ParseOutcome};
use mcscan::varint::encode_varint;

/// A framed response: outer packet length, packet id, declared payload
/// length, then `given` payload bytes.
fn frame(id: u8, declared_len: i64, given: &[u8]) -> Vec<u8> {
    let len_field = encode_varint(declared_len);
    let packet_len = encode_varint(1 + len_field.len() as i64 + declared_len);
    let mut data = packet_len;
    data.push(id);
    data.extend_from_slice(&len_field);
    data.extend_from_slice(given);
    data
}

#[test]
fn handshake_is_the_exact_wire_bytes() {
    assert_eq!(
        handshake_bytes(),
        vec![
            0x15, 0x00, 0xd4, 0x02, 0x0e, 0x6c, 0x6f, 0x63, 0x61, 0x6c, 0x68, 0x6f, 0x73, 0x74,
            0x00, 0x46, 0x4d, 0x4c, 0x00, 0x63, 0xdd, 0x01, 0x01, 0x00,
        ]
    );
}

#[test]
fn payload_length_65536_is_accepted() {
    let payload = vec![0x20u8; 65536];
    let data = frame(0x00, 65536, &payload);
    match parse_response(&data, false) {
        ParseOutcome::Done { payload: got } => assert_eq!(got, payload),
        _ => panic!("expected the full payload"),
    }
}

#[test]
fn payload_length_65537_is_rejected_before_any_payload_read() {
    // No payload byte is present at all: the cap alone decides.
    let data = frame(0x00, 65537, &[]);
    assert!(matches!(
        parse_response(&data, false),
        ParseOutcome::Fail { error: ScanError::PleaseNoDoSError }
    ));
}

#[test]
fn nonzero_packet_id_is_malformed() {
    let data = frame(0x01, 2, b"{}");
    assert!(matches!(
        parse_response(&data, false),
        ParseOutcome::Fail { error: ScanError::PacketFormatError }
    ));
}

#[test]
fn short_payload_is_a_read_failure_not_a_partial_success() {
    let data = frame(0x00, 10, b"hello");
    assert!(matches!(
        parse_response(&data, true),
        ParseOutcome::Fail { error: ScanError::JsonReadError }
    ));
}

#[test]
fn short_payload_on_an_open_stream_asks_for_the_missing_bytes() {
    let data = frame(0x00, 10, b"hello");
    assert!(matches!(parse_response(&data, false), ParseOutcome::NeedMore { count: 5 }));
}

#[test]
fn stream_ending_in_a_length_prefix_is_malformed() {
    assert!(matches!(
        parse_response(&[0xff, 0xff], true),
        ParseOutcome::Fail { error: ScanError::PacketFormatError }
    ));
}

#[test]
fn stream_ending_before_the_packet_id_is_a_read_error() {
    // A complete outer length, then nothing where the id byte belongs.
    assert!(matches!(
        parse_response(&[0x07], true),
        ParseOutcome::Fail { error: ScanError::ReadError }
    ));
}

#[test]
fn empty_data_on_an_open_stream_needs_one_byte() {
    assert!(matches!(parse_response(&[], false), ParseOutcome::NeedMore { count: 1 }));
}
