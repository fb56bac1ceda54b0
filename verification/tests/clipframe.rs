use beaglewing::clipframe::{
    abort_frame, ack_frame, eta_secs, frame, offer_frame, parse, parse_ack, pong_frame, pull_frame,
    Offer, FRAME_LEN, KIND_TAR, KIND_TEXT, MAX_PAYLOAD, MAX_TRANSFER, RATE_TO_LINUX, T_ABORT,
    T_ACK, T_DATA, T_END, T_OFFER, T_PING, T_PONG, T_PULL, T_START,
};
use beaglewing::reassembly::{FeedResult, Reassembler};
use beaglewing::transfer::encode_transfer;

#[test]
fn roundtrip_small_and_large() {
    for size in [0usize, 1, 57, 58, 59, 1000, 100_000] {
        let data: Vec<u8> = (0..size).map(|i| (i % 251) as u8).collect();
        let frames = encode_transfer(KIND_TEXT, &data);
        let mut r = Reassembler::default();
        let mut done = None;
        for f in &frames {
            match r.feed(f) {
                FeedResult::Complete(kind, d) => done = Some((kind, d)),
                FeedResult::Error(e) => panic!("size {size}: {e}"),
                _ => {}
            }
        }
        let (kind, d) = done.expect("transfer completed");
        assert_eq!(kind, KIND_TEXT);
        assert_eq!(d, data, "size {size}");
    }
}

#[test]
fn offer_and_pull_roundtrip() {
    let o = Offer { kind: KIND_TAR, total: 20_000_000, items: 2, id: 0xdeadbeef };
    let mut r = Reassembler::default();
    match r.feed(&offer_frame(&o)) {
        FeedResult::Offer(got) => assert_eq!(got, o),
        _ => panic!("offer not parsed"),
    }
    match r.feed(&pull_frame(0xdeadbeef)) {
        FeedResult::Pull(id) => assert_eq!(id, 0xdeadbeef),
        _ => panic!("pull not parsed"),
    }
}

#[test]
fn sequence_gap_detected() {
    let data = vec![7u8; MAX_PAYLOAD * 5];
    let frames = encode_transfer(KIND_TEXT, &data);
    let mut r = Reassembler::default();
    r.feed(&frames[0]);
    r.feed(&frames[1]);
    // skip frames[2]
    match r.feed(&frames[3]) {
        FeedResult::Error("sequence gap") => {}
        _ => panic!("gap not detected"),
    }
}

#[test]
fn oversize_start_rejected() {
    let mut start = [0u8; 5];
    start[0] = KIND_TEXT;
    start[1..5].copy_from_slice(&(MAX_TRANSFER + 1).to_le_bytes());
    let f = frame(T_START, 0, &start);
    let mut r = Reassembler::default();
    match r.feed(&f) {
        FeedResult::Error("transfer too large") => {}
        _ => panic!("oversize not rejected"),
    }
}

fn start(total: u32) -> [u8; FRAME_LEN] {
    let t = total.to_le_bytes();
    frame(T_START, 0, &[KIND_TEXT, t[0], t[1], t[2], t[3]])
}

fn error_of(r: FeedResult) -> &'static str {
    match r {
        FeedResult::Error(e) => e,
        _ => "no error",
    }
}

#[test]
fn frame_bytes_are_laid_out() {
    let f = frame(T_DATA, 0x1234, &[9, 8, 7]);
    assert_eq!(&f[..10], &[0x11, 0, 0x34, 0x12, 3, 0, 9, 8, 7, 0]);
    assert!(f[9..].iter().all(|&b| b == 0));
    let p = parse(&f).unwrap();
    assert_eq!((p.t, p.seq, p.payload), (T_DATA, 0x1234, &[9u8, 8, 7][..]));
}

#[test]
fn full_payload_fits_and_longer_is_unparseable() {
    let f = frame(T_DATA, 1, &[5u8; MAX_PAYLOAD]);
    assert_eq!(parse(&f).unwrap().payload.len(), MAX_PAYLOAD);
    let mut bad = f;
    bad[4..6].copy_from_slice(&((MAX_PAYLOAD + 1) as u16).to_le_bytes());
    assert!(parse(&bad).is_none());
    assert_eq!(error_of(Reassembler::default().feed(&bad)), "unparseable frame");
}

#[test]
fn acks_read_back_and_nothing_else_does() {
    assert_eq!(parse_ack(&ack_frame(0x01020304)), Some(0x01020304));
    assert_eq!(parse_ack(&pull_frame(7)), None);
    assert_eq!(parse_ack(&frame(T_ACK, 0, &[1, 2, 3])), None);
}

#[test]
fn bare_frames() {
    assert_eq!(pong_frame()[..6], [T_PONG, 0, 0, 0, 0, 0]);
    assert_eq!(abort_frame()[..6], [T_ABORT, 0, 0, 0, 0, 0]);
}

#[test]
fn eta_is_at_least_a_second() {
    assert_eq!(eta_secs(0, RATE_TO_LINUX), 1);
    assert_eq!(eta_secs(1_599_999, RATE_TO_LINUX), 1);
    assert_eq!(eta_secs(20_000_000, RATE_TO_LINUX), 25);
}

#[test]
fn every_protocol_error_has_its_input() {
    let mut r = Reassembler::default();
    assert_eq!(error_of(r.feed(&frame(T_OFFER, 0, &[0; 10]))), "bad OFFER payload");
    assert_eq!(error_of(r.feed(&frame(T_PULL, 0, &[0; 5]))), "bad PULL payload");
    assert_eq!(error_of(r.feed(&frame(T_START, 0, &[0; 4]))), "bad START payload");
    assert_eq!(error_of(r.feed(&frame(T_DATA, 1, &[0]))), "DATA without START");
    assert_eq!(error_of(r.feed(&frame(T_END, 1, &[0; 4]))), "END without START");
    assert_eq!(error_of(r.feed(&frame(0x77, 0, &[]))), "unknown frame type");
    r.feed(&start(2));
    assert_eq!(error_of(r.feed(&frame(T_DATA, 1, &[1, 2, 3]))), "overrun");
    r.feed(&start(2));
    assert_eq!(error_of(r.feed(&frame(T_END, 2, &[2, 0, 0, 0]))), "sequence gap at END");
    r.feed(&start(2));
    assert_eq!(error_of(r.feed(&frame(T_END, 1, &[2, 0, 0, 0]))), "length mismatch at END");
    assert!(r.status().is_none());
}

#[test]
fn side_frames_leave_a_transfer_alone() {
    let mut r = Reassembler::default();
    r.feed(&start(3));
    r.feed(&frame(T_DATA, 1, &[1, 2]));
    assert_eq!(r.status(), Some((2, 3)));
    assert!(matches!(r.feed(&frame(T_PING, 0, &[])), FeedResult::Ping));
    assert!(matches!(r.feed(&pong_frame()), FeedResult::Nothing));
    assert!(matches!(r.feed(&ack_frame(1)), FeedResult::Nothing));
    assert!(matches!(r.feed(&pull_frame(1)), FeedResult::Pull(1)));
    assert_eq!(r.status(), Some((2, 3)));
    assert!(matches!(r.feed(&frame(T_DATA, 2, &[3])), FeedResult::Progress(2)));
    match r.feed(&frame(T_END, 3, &[3, 0, 0, 0])) {
        FeedResult::Complete(KIND_TEXT, d) => assert_eq!(d, vec![1, 2, 3]),
        _ => panic!("not delivered"),
    }
}

#[test]
fn abort_drops_the_transfer() {
    let mut r = Reassembler::default();
    r.feed(&start(3));
    assert!(r.status().is_some());
    assert!(matches!(r.feed(&abort_frame()), FeedResult::Nothing));
    assert!(r.status().is_none());
}

#[test]
fn sequence_numbers_wrap_over_a_long_transfer() {
    let data = vec![3u8; MAX_TRANSFER as usize];
    let frames = encode_transfer(KIND_TAR, &data);
    assert_eq!(frames.len(), 65_923 + 2);
    let mut r = Reassembler::default();
    let mut last = FeedResult::Nothing;
    for f in &frames {
        last = r.feed(f);
        assert!(!matches!(last, FeedResult::Error(_)));
    }
    match last {
        FeedResult::Complete(KIND_TAR, d) => assert!(d == data),
        _ => panic!("not delivered"),
    }
}

#[test]
fn a_new_transfer_replaces_one_in_progress() {
    let mut r = Reassembler::default();
    r.feed(&start(300));
    r.feed(&frame(T_DATA, 1, &[9; 200]));
    let mut done = None;
    for f in encode_transfer(KIND_TEXT, b"hello").iter() {
        if let FeedResult::Complete(k, d) = r.feed(f) {
            done = Some((k, d));
        }
    }
    assert_eq!(done, Some((KIND_TEXT, b"hello".to_vec())));
}
