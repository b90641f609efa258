use ponder::crc16::crc16;
use ponder::frame::{build_frame, extract_payload, write_command};
use ponder::hexutil::{hex_decode, hex_encode};
use ponder::tlv::{build_tlv, parse_tlv, Tlv};

fn tlv(t: u16, v: u32) -> Tlv {
    Tlv { t, v }
}

#[test]
fn tlv_round_trip_all_selectors() {
    let records = vec![
        tlv(0, 0),
        tlv(1023, 15),
        tlv(5, 16),
        tlv(7, 255),
        tlv(8, 256),
        tlv(9, 65535),
        tlv(10, 65536),
        tlv(1023, 0xFF_FFFF),
    ];
    let bytes = build_tlv(&records);
    let decoded = parse_tlv(&bytes);
    assert_eq!(decoded, records);
}

#[test]
fn tlv_inline_boundary_fifteen_is_inline() {
    let bytes = build_tlv(&[tlv(1, 15)]);
    assert_eq!(bytes, vec![0x00, 0x4F]);
}

#[test]
fn tlv_inline_boundary_sixteen_takes_one_trailing_byte() {
    let bytes = build_tlv(&[tlv(1, 16)]);
    assert_eq!(bytes, vec![0x00, 0x50, 0x10]);
}

#[test]
fn tlv_tag_splits_over_two_bytes() {
    // tag 0x1fd: eight high bits 0x7F, two low bits into the top of b1
    let bytes = build_tlv(&[tlv(0x1fd, 20)]);
    assert_eq!(bytes, vec![0x7F, 0x50, 0x14]);
}

#[test]
fn tlv_truncated_value_bytes_drop_the_last_record() {
    let records = vec![tlv(5, 256), tlv(6, 2)];
    let bytes = build_tlv(&records);
    assert_eq!(bytes.len(), 6);
    // cut into the second record's header: only the first survives
    assert_eq!(parse_tlv(&bytes[..5]), vec![tlv(5, 256)]);
    // cut into the first record's value bytes: nothing survives
    assert_eq!(parse_tlv(&bytes[..3]), Vec::<Tlv>::new());
    // the whole buffer still decodes fully
    assert_eq!(parse_tlv(&bytes), records);
}

#[test]
fn tlv_parse_never_fails_on_garbage() {
    assert_eq!(parse_tlv(&[]), Vec::<Tlv>::new());
    assert_eq!(parse_tlv(&[0xFF]), Vec::<Tlv>::new());
    // header declares three value bytes that are missing
    assert_eq!(parse_tlv(&[0xFF, 0xFF]), Vec::<Tlv>::new());
}

#[test]
fn crc16_known_check_value() {
    // the standard check input for CRC-16/XMODEM
    assert_eq!(crc16(b"123456789"), 0x31C3);
}

#[test]
fn crc16_empty_is_zero() {
    assert_eq!(crc16(&[]), 0);
}

#[test]
fn frame_layout_and_checksum() {
    let tlv_buf = build_tlv(&[tlv(0x1f7, 0)]);
    let frame = build_frame(write_command(), &tlv_buf).unwrap();
    assert_eq!(&frame[0..2], &[1, 1]);
    assert_eq!(&frame[2..7], &[0x04, 0x00, 0x00, 0x00, 0x65]);
    assert_eq!(&frame[7..10], &[2, 1, 1]);
    assert_eq!(frame[10] as usize, tlv_buf.len());
    assert_eq!(&frame[11..frame.len() - 2], tlv_buf.as_slice());
    let crc = crc16(&frame[2..frame.len() - 2]);
    assert_eq!(frame[frame.len() - 2], (crc >> 8) as u8);
    assert_eq!(frame[frame.len() - 1], (crc & 0xFF) as u8);
}

#[test]
fn frame_rejects_oversized_payload() {
    let big = vec![0u8; 256];
    assert!(build_frame(write_command(), &big).is_none());
    let just_fits = vec![0u8; 255];
    assert!(build_frame(write_command(), &just_fits).is_some());
}

#[test]
fn extract_payload_accepts_register_update_frames() {
    // 6-byte command-class match with the TLV (0x1fd, 20)
    let frame = [
        0x00u8, 0x00, 0x04, 0x00, 0x00, 0x00, 0x65, 0x02, 0x04, 0x01, 0x03, 0x7F, 0x50, 0x14,
        0x00, 0x00,
    ];
    let payload = extract_payload(&frame).unwrap();
    assert_eq!(payload, vec![0x7F, 0x50, 0x14]);
    assert_eq!(parse_tlv(&payload), vec![tlv(0x1fd, 20)]);
}

#[test]
fn extract_payload_accepts_both_appliance_markers() {
    for marker in [0x87u8, 0xA7] {
        let frame = [
            0x00u8, 0x00, 0x04, 0x00, 0x00, 0x00, marker, 0x02, 0x04, 0x01, 0x00, 0x00, 0x00,
        ];
        assert_eq!(extract_payload(&frame), Some(Vec::new()));
    }
}

#[test]
fn extract_payload_rejects_malformed_frames() {
    // too short
    assert!(extract_payload(&[0x04, 0x00]).is_none());
    // wrong class marker
    let bad_marker = [
        0x00u8, 0x00, 0x04, 0x00, 0x00, 0x00, 0x66, 0x02, 0x04, 0x01, 0x00, 0x00, 0x00,
    ];
    assert!(extract_payload(&bad_marker).is_none());
    // length byte does not match the frame length
    let bad_len = [
        0x00u8, 0x00, 0x04, 0x00, 0x00, 0x00, 0x65, 0x02, 0x04, 0x01, 0x05, 0x00, 0x00,
    ];
    assert!(extract_payload(&bad_len).is_none());
}

#[test]
fn hex_wrappers_round_trip() {
    let bytes = vec![0xDEu8, 0xAD, 0x01, 0x00];
    let s = hex_encode(&bytes);
    assert_eq!(s, "dead0100");
    assert_eq!(hex_decode(&s), Some(bytes));
}

#[test]
fn hex_decode_accepts_uppercase_and_rejects_junk() {
    assert_eq!(hex_decode("DEAD"), Some(vec![0xDE, 0xAD]));
    assert_eq!(hex_decode("abc"), None);
    assert_eq!(hex_decode("zz"), None);
}
