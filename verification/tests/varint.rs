use mcscan::varint::{decode_varint, encode_varint};

#[test]
fn round_trip_representative_values() {
    let values: [i64; 12] = [
        0,
        1,
        5,
        127,
        128,
        129,
        300,
        16383,
        16384,
        65536,
        25565,
        0xff_ffff_ffff_ffff,
    ];
    for &x in values.iter() {
        let encoded = encode_varint(x);
        assert!(encoded.len() >= 1 && encoded.len() <= 8);
        assert_eq!(decode_varint(&encoded), Some((x, encoded.len())));
    }
}

#[test]
fn round_trip_survives_trailing_bytes() {
    let mut encoded = encode_varint(300);
    let consumed = encoded.len();
    encoded.push(0xff);
    encoded.push(0x00);
    assert_eq!(decode_varint(&encoded), Some((300, consumed)));
}

#[test]
fn known_encodings() {
    assert_eq!(encode_varint(0), vec![0x00]);
    assert_eq!(encode_varint(127), vec![0x7f]);
    assert_eq!(encode_varint(128), vec![0x80, 0x01]);
    assert_eq!(encode_varint(300), vec![0xac, 0x02]);
    assert_eq!(encode_varint(65536), vec![0x80, 0x80, 0x04]);
}

#[test]
fn truncation_stops_at_eight_bytes() {
    // Eight bytes, all with the continuation bit set: the decode still ends,
    // with a finite value, and consumes exactly eight bytes.
    let all_continue = [0xffu8; 8];
    let expected: i64 = 0xff_ffff_ffff_ffff; // eight groups of 0x7f
    assert_eq!(decode_varint(&all_continue), Some((expected, 8)));
}

#[test]
fn truncation_never_reads_a_ninth_byte() {
    let mut stream = vec![0xffu8; 8];
    let expected: i64 = 0xff_ffff_ffff_ffff;
    // Whatever follows the eighth byte is not consumed.
    stream.extend_from_slice(&[0x01, 0x02, 0x03, 0x04]);
    assert_eq!(decode_varint(&stream), Some((expected, 8)));
}

#[test]
fn incomplete_input_yields_none() {
    assert_eq!(decode_varint(&[]), None);
    assert_eq!(decode_varint(&[0x80]), None);
    assert_eq!(decode_varint(&[0xff, 0xff, 0xff]), None);
}
