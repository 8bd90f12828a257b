use priklady::frame::parse_frame;
use priklady::ip::{parse_ip_header, ParseError};
use priklady::wire::{encode_fields, Serialize, U16Be, U32Le};

#[test]
fn frame_with_hello_payload() {
    let raw = [0x01u8, 0x02, 0x00, 0x05, b'H', b'e', b'l', b'l', b'o'];
    let frame = parse_frame(&raw).expect("whole frame");
    assert_eq!(frame.header, &[0x01, 0x02, 0x00, 0x05]);
    assert_eq!(frame.payload, b"Hello");
}

#[test]
fn frame_shorter_than_header() {
    assert!(parse_frame(&[0x01, 0x02, 0x00]).is_none());
    assert!(parse_frame(&[]).is_none());
}

#[test]
fn frame_shorter_than_announced_payload() {
    assert!(parse_frame(&[0x00, 0x00, 0x00, 0x03, 1, 2]).is_none());
}

#[test]
fn frame_keeps_trailing_bytes_out_of_payload() {
    let raw = [9u8, 9, 0x00, 0x02, 7, 8, 100, 101];
    let frame = parse_frame(&raw).unwrap();
    assert_eq!(frame.payload, &[7, 8]);
}

#[test]
fn frame_length_is_big_endian() {
    let mut raw = vec![0u8, 0, 0x01, 0x00];
    raw.extend(std::iter::repeat(0xAA).take(256));
    let frame = parse_frame(&raw).unwrap();
    assert_eq!(frame.payload.len(), 256);
    assert!(parse_frame(&raw[..259]).is_none());
}

#[test]
fn frame_with_empty_payload() {
    let frame = parse_frame(&[1, 2, 0, 0]).unwrap();
    assert_eq!(frame.header.len(), 4);
    assert!(frame.payload.is_empty());
}

fn sample_packet() -> [u8; 20] {
    [
        0x45, 0x00, 0x00, 0x3c, 0x00, 0x00, 0x40, 0x00, 0x40, 0x06, 0x00, 0x00, 192, 168, 1, 1,
        192, 168, 1, 2,
    ]
}

#[test]
fn ip_header_fields() {
    let hdr = parse_ip_header(&sample_packet()).unwrap();
    assert_eq!(hdr.version, 4);
    assert_eq!(hdr.ihl, 5);
    assert_eq!(hdr.tos, 0);
    assert_eq!(hdr.total_len, 60);
    assert_eq!(hdr.src, [192, 168, 1, 1]);
    assert_eq!(hdr.dst, [192, 168, 1, 2]);
}

#[test]
fn ip_header_too_short() {
    let p = sample_packet();
    assert_eq!(parse_ip_header(&p[..19]).unwrap_err(), ParseError::TooShort);
}

#[test]
fn ip_header_wrong_version() {
    let mut p = sample_packet();
    p[0] = 0x65;
    assert_eq!(parse_ip_header(&p).unwrap_err(), ParseError::InvalidVersion(6));
}

#[test]
fn ip_header_ignores_bytes_after_twenty() {
    let mut long = sample_packet().to_vec();
    long.extend_from_slice(&[1, 2, 3]);
    let hdr = parse_ip_header(&long).unwrap();
    assert_eq!(hdr.dst, [192, 168, 1, 2]);
    assert_eq!(hdr.total_len, 0x3c);
}

#[test]
fn encode_ethertype_and_le_word() {
    let a = U16Be(0x0800);
    let b = U32Le(0xDEAD_BEEF);
    let fields: [&dyn Serialize; 2] = [&a, &b];
    assert_eq!(encode_fields(&fields), vec![0x08, 0x00, 0xEF, 0xBE, 0xAD, 0xDE]);
}

#[test]
fn encode_matches_std_byte_order() {
    let x = 0x1234_5678u32;
    let y = 0xABCDu16;
    let mut buf = Vec::new();
    U32Le(x).serialize(&mut buf);
    U16Be(y).serialize(&mut buf);
    let mut expected = x.to_le_bytes().to_vec();
    expected.extend_from_slice(&y.to_be_bytes());
    assert_eq!(buf, expected);
    assert_eq!(U32Le(x).wire_size(), 4);
    assert_eq!(U16Be(y).wire_size(), 2);
}

#[test]
fn encode_nothing() {
    let fields: [&dyn Serialize; 0] = [];
    assert!(encode_fields(&fields).is_empty());
}
