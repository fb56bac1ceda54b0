use beaglewing::bridge::{Bridge, Effect, Step};
use beaglewing::hidmap::keycode_to_usage;
use beaglewing::protocol::{Message, Status};
use beaglewing::selftest::{check_status, script};

#[test]
fn script_runs_through_the_bridge() {
    for click in [false, true] {
        let beats = script(click);
        assert_eq!(beats.len(), if click { 29 } else { 27 });
        assert_eq!((beats[0].pause, beats.last().unwrap().pause), (200, 0));
        let mut b = Bridge::new();
        b.accept(0);
        b.receive(&Message::Hello(1).encode(), 0);
        for beat in &beats {
            b.receive(&beat.message.encode(), 1);
        }
        b.receive(&Message::GetStatus.encode(), 2);
        let mut reply = Vec::new();
        loop {
            match b.step() {
                Step::Wait => break,
                Step::Ran(effects) => {
                    for e in effects {
                        if let Effect::Reply(f) = e {
                            reply = f;
                        }
                    }
                }
                Step::Closed(why, _) => panic!("{why:?}"),
            }
        }
        assert_eq!(reply, vec![0x41, 4, 0, 0, 0, 1]);
        assert!(!b.holds_input());
    }
}

#[test]
fn script_types_router_ok() {
    let downs: Vec<u8> = script(false)
        .iter()
        .filter_map(|b| match b.message {
            Message::KeyDown(u) => Some(u),
            _ => None,
        })
        .collect();
    // r o u t e r space o k enter
    let want: Vec<u8> = [19u16, 24, 22, 20, 18, 19, 57, 24, 37, 28]
        .iter()
        .map(|&c| keycode_to_usage(c).unwrap())
        .collect();
    assert_eq!(downs, want);
}

#[test]
fn status_after_the_script() {
    let clean = Status { modifiers: 0, held_keys: 0, buttons: 0, hid_ok: true };
    assert_eq!(check_status(&clean), Ok(()));
    assert_eq!(check_status(&Status { buttons: 1, hid_ok: false, ..clean }), Err("state not clean"));
    assert_eq!(
        check_status(&Status { hid_ok: false, ..clean }),
        Err("bridge reports HID writes failing")
    );
}
