use beaglewing::bridge::{Bridge, CloseReason, Effect, SessionEnd, Step, HEARTBEAT_TIMEOUT};
use beaglewing::hid::{Hid, KeyOutcome, WriteNote};
use beaglewing::protocol::Message;

fn show(e: &Effect) -> String {
    match e {
        Effect::Keyboard(r) => format!("k{r:?}"),
        Effect::Pointer(r) => format!("p{r:?}"),
        Effect::Reply(f) => format!("r{f:?}"),
        Effect::KeyDropped(u) => format!("d{u}"),
    }
}

fn run(b: &mut Bridge) -> Vec<String> {
    let mut out = Vec::new();
    loop {
        match b.step() {
            Step::Wait => break,
            Step::Ran(e) => out.extend(e.iter().map(show)),
            Step::Closed(why, e) => {
                out.push(format!("closed {why:?}"));
                out.extend(e.iter().map(show));
                break;
            }
        }
    }
    out
}

fn greeted() -> Bridge {
    let mut b = Bridge::new();
    b.accept(0);
    b.receive(&Message::Hello(1).encode(), 1);
    assert_eq!(run(&mut b), vec!["r[2, 2, 1, 0]"]);
    b
}

const NO_KEYS: &str = "k[0, 0, 0, 0, 0, 0, 0, 0]";
const CENTER: &str = "p[0, 0, 64, 0, 64, 0]";

#[test]
fn hello_must_come_first() {
    let mut b = Bridge::new();
    b.accept(0);
    b.receive(&Message::Keepalive.encode(), 1);
    assert_eq!(run(&mut b), vec!["closed NoHello", NO_KEYS, CENTER]);
    assert!(!b.connected());

    b.accept(0);
    b.receive(&Message::Hello(2).encode(), 1);
    assert_eq!(run(&mut b), vec!["closed Version(2)", NO_KEYS, CENTER]);
}

#[test]
fn redundant_hello_is_ignored() {
    let mut b = greeted();
    b.receive(&Message::Hello(9).encode(), 1);
    assert!(run(&mut b).is_empty());
    assert!(b.connected());
}

#[test]
fn keys_and_modifiers_report() {
    let mut b = greeted();
    b.receive(&Message::KeyDown(0xe1).encode(), 1);
    b.receive(&Message::KeyDown(0x04).encode(), 1);
    b.receive(&Message::KeyDown(0x04).encode(), 1);
    b.receive(&Message::KeyUp(0xe1).encode(), 1);
    b.receive(&Message::KeyUp(0x04).encode(), 1);
    assert_eq!(
        run(&mut b),
        vec![
            "k[2, 0, 0, 0, 0, 0, 0, 0]",
            "k[2, 0, 4, 0, 0, 0, 0, 0]",
            "k[0, 0, 4, 0, 0, 0, 0, 0]",
            NO_KEYS,
        ]
    );
}

#[test]
fn seventh_key_is_dropped() {
    let mut b = greeted();
    for u in 4..=10 {
        b.receive(&Message::KeyDown(u).encode(), 1);
    }
    let out = run(&mut b);
    assert_eq!(out.len(), 7);
    assert_eq!(out[5], "k[0, 0, 4, 5, 6, 7, 8, 9]");
    assert_eq!(out[6], "d10");
    b.receive(&Message::KeyUp(5).encode(), 1);
    b.receive(&Message::KeyDown(10).encode(), 1);
    assert_eq!(run(&mut b)[1], "k[0, 0, 4, 10, 6, 7, 8, 9]");
}

#[test]
fn key_zero_changes_nothing() {
    let mut h = Hid::new();
    assert!(matches!(h.key_event(0, true), KeyOutcome::AlreadyHeld));
    for u in 4..=9 {
        h.key_event(u, true);
    }
    assert!(matches!(h.key_event(0, true), KeyOutcome::Dropped));
    assert_eq!(h.held_key_count(), 6);
}

#[test]
fn key_state_is_authoritative() {
    let mut b = greeted();
    b.receive(&Message::KeyDown(0x20).encode(), 1);
    b.receive(&Message::KeyState(5, [1, 2, 3, 4, 5, 6]).encode(), 1);
    assert_eq!(run(&mut b)[1], "k[5, 0, 1, 2, 3, 4, 5, 6]");
}

#[test]
fn positions_coalesce_until_the_end_of_a_batch() {
    let mut b = greeted();
    b.receive(&Message::PointerAbs(0, 0).encode(), 1);
    b.receive(&Message::PointerAbs(0x2000, 0x0204).encode(), 1);
    assert!(run(&mut b).is_empty());
    let e: Vec<String> = b.end_of_batch().iter().map(show).collect();
    assert_eq!(e, vec!["p[0, 0, 16, 2, 1, 0]"]);
    assert!(b.end_of_batch().is_empty());
}

#[test]
fn buttons_and_wheel_act_at_the_newest_position() {
    let mut b = greeted();
    b.receive(&Message::PointerAbs(65535, 65535).encode(), 1);
    b.receive(&Message::PointerButton(0xff).encode(), 1);
    b.receive(&Message::PointerWheel(-2).encode(), 1);
    assert_eq!(
        run(&mut b),
        vec![
            "p[0, 255, 127, 255, 127, 0]",
            "p[7, 255, 127, 255, 127, 0]",
            "p[7, 255, 127, 255, 127, 254]",
        ]
    );
}

#[test]
fn release_all_clears_everything() {
    let mut b = greeted();
    b.receive(&Message::KeyDown(0xe0).encode(), 1);
    b.receive(&Message::KeyDown(4).encode(), 1);
    b.receive(&Message::PointerButton(1).encode(), 1);
    run(&mut b);
    assert!(b.holds_input());
    b.receive(&Message::ReleaseAll.encode(), 1);
    assert_eq!(run(&mut b), vec![NO_KEYS, CENTER]);
    assert!(!b.holds_input());
}

#[test]
fn every_exit_releases() {
    let mut b = greeted();
    b.receive(&Message::KeyDown(0xe0).encode(), 1);
    b.receive(&Message::PointerAbs(100, 200).encode(), 1);
    b.receive(&Message::PointerButton(3).encode(), 1);
    run(&mut b);
    let e: Vec<String> = b.close().iter().map(show).collect();
    assert_eq!(e, vec![NO_KEYS, "p[0, 50, 0, 100, 0, 0]"]);
    assert!(!b.connected() && !b.holds_input());

    let mut b = greeted();
    b.receive(&Message::KeyDown(4).encode(), 1);
    b.receive(&[0x77, 9], 1);
    let out = run(&mut b);
    assert_eq!(out[1..], ["closed Malformed(119, 9)", NO_KEYS, CENTER]);
    assert!(!b.connected() && !b.holds_input());
}

#[test]
fn close_reasons_tell_apart() {
    assert_eq!(CloseReason::NoHello, CloseReason::NoHello);
    assert_ne!(CloseReason::Version(2), CloseReason::Version(3));
}

#[test]
fn status_tells_the_state() {
    let mut b = greeted();
    b.receive(&Message::KeyDown(0xe2).encode(), 1);
    b.receive(&Message::KeyDown(4).encode(), 1);
    b.receive(&Message::KeyDown(5).encode(), 1);
    b.receive(&Message::PointerButton(2).encode(), 1);
    run(&mut b);
    b.receive(&Message::GetStatus.encode(), 1);
    assert_eq!(run(&mut b), vec!["r[65, 4, 4, 2, 2, 1]"]);
    assert_eq!(b.note_write(true), WriteNote::Same);
    assert_eq!(b.note_write(false), WriteNote::Failing);
    assert_eq!(b.note_write(false), WriteNote::Same);
    assert!(!b.hid_ok());
    b.receive(&Message::GetStatus.encode(), 1);
    assert_eq!(run(&mut b), vec!["r[65, 4, 4, 2, 2, 0]"]);
    assert_eq!(b.note_write(true), WriteNote::Recovered);
}

#[test]
fn bytes_may_arrive_one_by_one() {
    let mut b = Bridge::new();
    b.accept(0);
    let mut bytes = Message::Hello(1).encode();
    bytes.extend(Message::KeyDown(4).encode());
    let mut out = Vec::new();
    for byte in bytes {
        b.receive(&[byte], 1);
        out.extend(run(&mut b));
    }
    assert_eq!(out, vec!["r[2, 2, 1, 0]", "k[0, 0, 4, 0, 0, 0, 0, 0]"]);
}

#[test]
fn silence_and_shutdown_end_a_session() {
    let mut b = Bridge::new();
    b.accept(100);
    assert_eq!(b.before_read(false, 100 + HEARTBEAT_TIMEOUT), None);
    assert_eq!(
        b.before_read(false, 101 + HEARTBEAT_TIMEOUT),
        Some(SessionEnd::HeartbeatTimeout)
    );
    b.receive(&Message::Keepalive.encode(), 200);
    assert_eq!(b.before_read(false, 200 + HEARTBEAT_TIMEOUT), None);
    assert_eq!(b.before_read(false, 0), None);
    assert_eq!(b.before_read(true, 0), Some(SessionEnd::Shutdown));
}

#[test]
fn modifiers_touch_only_their_bit() {
    let mut h = Hid::new();
    for u in 0xe0..=0xe7u8 {
        h.key_event(u, true);
    }
    assert_eq!(h.modifiers, 0xff);
    h.key_event(0xe3, false);
    assert_eq!(h.modifiers, 0xf7);
    h.key_event(0xe3, true);
    assert_eq!(h.modifiers, 0xff);
}
