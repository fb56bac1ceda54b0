use beaglewing::protocol::{
    decode, expected_len, frame, hello_ack, is_hello_ack, parse_status, Decoded, Message, Status,
    MSG_HELLO_ACK, MSG_KEEPALIVE, MSG_KEY_DOWN, MSG_POINTER_ABS, MSG_STATUS, VERSION,
};

#[test]
fn frame_layout() {
    assert_eq!(frame(MSG_KEEPALIVE, &[]), vec![0x03, 0x00]);
    assert_eq!(frame(MSG_KEY_DOWN, &[0x04]), vec![0x10, 0x01, 0x04]);
    assert_eq!(
        frame(MSG_POINTER_ABS, &[0xff, 0xff, 0x00, 0x80]),
        vec![0x20, 0x04, 0xff, 0xff, 0x00, 0x80]
    );
}

#[test]
fn messages_on_the_wire() {
    assert_eq!(Message::Hello(1).encode(), vec![0x01, 2, 1, 0]);
    assert_eq!(Message::Keepalive.encode(), vec![0x03, 0]);
    assert_eq!(Message::KeyDown(4).encode(), vec![0x10, 1, 4]);
    assert_eq!(Message::KeyUp(4).encode(), vec![0x11, 1, 4]);
    assert_eq!(
        Message::KeyState(2, [4, 5, 6, 7, 8, 9]).encode(),
        vec![0x12, 7, 2, 4, 5, 6, 7, 8, 9]
    );
    assert_eq!(Message::PointerAbs(0x1234, 0xfffe).encode(), vec![0x20, 4, 0x34, 0x12, 0xfe, 0xff]);
    assert_eq!(Message::PointerButton(5).encode(), vec![0x21, 1, 5]);
    assert_eq!(Message::PointerWheel(-1).encode(), vec![0x22, 1, 0xff]);
    assert_eq!(Message::PointerWheel(127).encode(), vec![0x22, 1, 0x7f]);
    assert_eq!(Message::PointerWheel(-128).encode(), vec![0x22, 1, 0x80]);
    assert_eq!(Message::ReleaseAll.encode(), vec![0x30, 0]);
    assert_eq!(Message::GetStatus.encode(), vec![0x40, 0]);
}

#[test]
fn messages_read_back_with_bytes_behind_them() {
    let all = [
        Message::Hello(0x0102),
        Message::Keepalive,
        Message::KeyDown(0xe1),
        Message::KeyUp(0x31),
        Message::KeyState(0xff, [1, 2, 3, 4, 5, 6]),
        Message::PointerAbs(65535, 1),
        Message::PointerButton(7),
        Message::PointerWheel(-127),
        Message::ReleaseAll,
        Message::GetStatus,
    ];
    for m in all {
        let mut bytes = m.encode();
        let n = bytes.len();
        bytes.extend_from_slice(&[0xaa, 0xbb]);
        match decode(&bytes) {
            Decoded::Whole(got, used) => {
                assert_eq!(used, n);
                assert_eq!(got.encode(), m.encode());
                assert_eq!(format!("{got:?}"), format!("{m:?}"));
            }
            _ => panic!("{m:?} not read back"),
        }
        for cut in 0..n {
            assert!(matches!(decode(&bytes[..cut]), Decoded::Incomplete));
        }
    }
}

#[test]
fn malformed_headers_are_found_out_at_once() {
    assert!(matches!(decode(&[0x99, 0]), Decoded::Malformed));
    assert!(matches!(decode(&[0x10, 2]), Decoded::Malformed));
    assert!(matches!(decode(&[0x02, 2, 1, 0]), Decoded::Malformed));
    assert!(matches!(decode(&[0x20, 33]), Decoded::Malformed));
    assert!(matches!(decode(&[0x99]), Decoded::Incomplete));
}

#[test]
fn expected_lengths() {
    assert_eq!(expected_len(0x01), Some(2));
    assert_eq!(expected_len(0x12), Some(7));
    assert_eq!(expected_len(0x20), Some(4));
    assert_eq!(expected_len(0x22), Some(1));
    assert_eq!(expected_len(0x30), Some(0));
    assert_eq!(expected_len(0x41), None);
}

#[test]
fn handshake_replies() {
    assert_eq!(hello_ack(), vec![0x02, 2, 1, 0]);
    assert!(is_hello_ack(MSG_HELLO_ACK, &[1, 0]));
    assert!(!is_hello_ack(MSG_HELLO_ACK, &[2, 0]));
    assert!(!is_hello_ack(MSG_HELLO_ACK, &[1, 0, 0]));
    assert!(!is_hello_ack(MSG_STATUS, &[1, 0]));
    assert_eq!(VERSION, 1);
}

#[test]
fn status_replies() {
    let s = Status { modifiers: 3, held_keys: 2, buttons: 1, hid_ok: true };
    assert_eq!(s.encode(), vec![0x41, 4, 3, 2, 1, 1]);
    assert_eq!(parse_status(MSG_STATUS, &[3, 2, 1, 1]), Some(s));
    assert_eq!(
        parse_status(MSG_STATUS, &[3, 2, 1, 0]),
        Some(Status { hid_ok: false, ..s })
    );
    assert_eq!(parse_status(MSG_STATUS, &[3, 2, 1]), None);
    assert_eq!(parse_status(MSG_HELLO_ACK, &[3, 2, 1, 1]), None);
}
