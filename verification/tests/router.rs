use beaglewing::emergency::{Combo, Emergency};
use beaglewing::geometry::{crossing, entry_side, target_of, Crossing, Edge, Reach, Side, Target};
use beaglewing::protocol::Message;
use beaglewing::router::{Action, Captured, Next, Router, Stop, Turn, Why};

const MS: u64 = 1_000_000;
const SEC: u64 = 1_000_000_000;

fn show(t: &Turn) -> Vec<String> {
    t.actions
        .iter()
        .map(|a| match a {
            Action::Send(m, counts) => format!("send {m:?} {counts}"),
            Action::ForceLocal => "force-local".to_string(),
            Action::ReleaseCapture(id) => format!("release {id}"),
            Action::AnnounceLocal(why) => format!("local {why:?}"),
            Action::EnterRemote => "enter".to_string(),
            Action::AnnounceRemote => "remote".to_string(),
            Action::Pause(n) => format!("pause {n}"),
            Action::DisableCapture => "disable".to_string(),
            Action::ArmBarriers => "arm".to_string(),
            Action::EnableCapture => "enable".to_string(),
            Action::ReportChoppy(n) => format!("choppy {n}"),
        })
        .collect()
}

fn home(id: u32, why: &str) -> Vec<String> {
    vec![
        "send ReleaseAll false".to_string(),
        "force-local".to_string(),
        format!("release {id}"),
        format!("local {why}"),
    ]
}

fn remote() -> Router {
    let mut r = Router::new(true, Combo::default(), 0);
    let t = r.activated(7, (0, 32768), 0);
    assert_eq!(show(&t), vec!["enter", "send PointerAbs(0, 32768) false", "remote"]);
    assert_eq!(t.next, Next::Wake);
    assert!(r.is_remote());
    r
}

#[test]
fn idle_router_waits() {
    let mut r = Router::new(true, Combo::default(), 0);
    let t = r.wake(false, SEC);
    assert!(t.actions.is_empty());
    assert_eq!(t.next, Next::Wait(300 * MS));
}

#[test]
fn keepalive_after_a_quiet_second() {
    let mut r = Router::new(true, Combo::default(), 0);
    assert_eq!(r.wake(false, SEC + 1).next, Next::Keepalive);
    assert_eq!(r.keepalive_sent(true, SEC + 2).next, Next::Wait(300 * MS));
    assert_eq!(r.wake(false, SEC + 3).next, Next::Wait(300 * MS));
}

#[test]
fn lost_bridge_brings_input_home() {
    let mut r = remote();
    r.captured(Captured::Motion, 1);
    assert_eq!(r.wake(false, SEC + 1).next, Next::Keepalive);
    let t = r.keepalive_sent(false, SEC + 1);
    assert_eq!(show(&t), vec!["force-local", "release 7", "local BridgeLost"]);
    assert!(!r.is_remote());
    assert_eq!(t.next, Next::Wait(300 * MS));
    assert_eq!(r.wake(false, 2 * SEC + 1).next, Next::Connect);
    let t = r.connected(false, 2 * SEC + 2);
    assert!(t.actions.is_empty());
    assert_eq!(r.wake(false, 3 * SEC).next, Next::Wait(300 * MS));
    assert_eq!(r.wake(false, 4 * SEC + 2).next, Next::Connect);
    let t = r.connected(true, 4 * SEC + 3);
    assert_eq!(show(&t), vec!["send ReleaseAll false"]);
}

#[test]
fn capture_without_bridge_is_refused() {
    let mut r = Router::new(false, Combo::default(), 0);
    let t = r.activated(3, (1, 2), 5);
    assert_eq!(show(&t), vec!["force-local", "release 3", "local NoBridge"]);
    assert!(!r.is_remote());
}

#[test]
fn silent_capture_is_given_back() {
    let mut r = remote();
    r.sent(true, 3 * SEC);
    assert!(show(&r.wake(false, 3 * SEC)).is_empty());
    let t = r.wake(false, 3 * SEC + 1);
    assert_eq!(show(&t), home(7, "Failsafe"));
    assert!(!r.is_remote());
}

#[test]
fn silent_capture_is_given_back_after_a_keepalive() {
    let mut r = remote();
    assert_eq!(r.wake(false, 3 * SEC + 1).next, Next::Keepalive);
    let t = r.keepalive_sent(true, 3 * SEC + 1);
    assert_eq!(show(&t), home(7, "Failsafe"));
    assert!(matches!(t.next, Next::Wait(_)));
    assert!(!r.is_remote());
}

#[test]
fn active_capture_is_kept() {
    let mut r = remote();
    r.captured(Captured::Motion, 10);
    r.sent(true, 3 * SEC);
    assert!(show(&r.wake(false, 3 * SEC + 1)).is_empty());
    assert!(r.is_remote());
}

#[test]
fn keys_go_to_the_bridge() {
    let mut r = remote();
    let t = r.captured(Captured::Key(30, true), 1);
    assert_eq!((show(&t), t.next), (vec!["send KeyDown(4) true".to_string()], Next::Sent));
    assert_eq!(r.sent(true, 2).next, Next::Wake);
    let t = r.captured(Captured::Key(30, false), 3);
    assert_eq!(show(&t), vec!["send KeyUp(4) true"]);
    let t = r.captured(Captured::Key(240, true), 4);
    assert_eq!((show(&t).len(), t.next), (0, Next::Wake));
    let t = r.captured(Captured::Key(0x1_0000 + 30, true), 5);
    assert_eq!(show(&t), vec!["send KeyDown(4) true"]);
}

#[test]
fn stray_events_while_local_are_ignored() {
    let mut r = Router::new(true, Combo::default(), 0);
    let t = r.captured(Captured::Key(30, true), 1);
    assert_eq!((t.actions.len(), t.next), (0, Next::Wake));
    let t = r.captured(Captured::Disconnected, 1);
    assert_eq!((t.actions.len(), t.next), (0, Next::Wake));
}

#[test]
fn emergency_hotkey_brings_input_home() {
    for codes in [[29, 56, 43], [43, 29, 56], [56, 43, 29]] {
        let mut r = remote();
        r.captured(Captured::Key(codes[0], true), 1);
        r.captured(Captured::Key(codes[1], true), 2);
        r.captured(Captured::Key(30, true), 3);
        let t = r.captured(Captured::Key(codes[2], true), 4);
        assert_eq!(show(&t), home(7, "EmergencyHotkey"));
        assert!(!r.is_remote());
    }
}

#[test]
fn emergency_needs_all_three_at_once() {
    let mut e = Emergency::new(Combo::default());
    assert!(!e.update(0xe0, true));
    assert!(!e.update(0xe2, true));
    assert!(!e.update(0xe2, false));
    assert!(!e.update(0x31, true));
    assert!(e.update(0xe2, true));
    e.reset();
    assert!(!e.update(0x31, true));
}

#[test]
fn emergency_hotkey_is_configurable() {
    let combo = Combo { first: 0xe4, second: 0x29, third: 0x04 };
    let mut r = Router::new(true, combo, 0);
    r.activated(1, (0, 0), 0);
    for code in [29, 56, 43] {
        r.captured(Captured::Key(code, true), 1);
    }
    assert!(r.is_remote());
    r.captured(Captured::Key(97, true), 2);
    r.captured(Captured::Key(1, true), 3);
    r.captured(Captured::Key(30, true), 4);
    assert!(!r.is_remote());
}

#[test]
fn hotkey_that_names_a_key_twice_completes() {
    let mut e = Emergency::new(Combo { first: 0xe0, second: 0x31, third: 0xe0 });
    assert!(!e.update(0xe0, true));
    assert!(e.update(0x31, true));
    assert!(!e.update(0xe0, false));
    assert!(e.update(0xe0, true));
    let mut e = Emergency::new(Combo { first: 0x29, second: 0x29, third: 0x29 });
    assert!(!e.update(0x28, true));
    assert!(e.update(0x29, true));
}

#[test]
fn clicks_land_at_the_newest_position() {
    let mut r = remote();
    r.captured(Captured::Frame, 1);
    r.moved(Crossing::Stay, Target::Remote, (5, 6));
    let t = r.captured(Captured::Button(0x110, true), 2);
    assert_eq!(
        show(&t),
        vec!["send PointerAbs(5, 6) false", "send PointerButton(1) true"]
    );
    let t = r.captured(Captured::Button(0x112, true), 3);
    assert_eq!(show(&t), vec!["send PointerButton(5) true"]);
    let t = r.captured(Captured::Button(0x110, false), 4);
    assert_eq!(show(&t), vec!["send PointerButton(4) true"]);
    let t = r.captured(Captured::Button(0x113, true), 5);
    assert!(t.actions.is_empty());
}

#[test]
fn positions_and_wheel_are_coalesced_and_throttled() {
    let mut r = remote();
    r.captured(Captured::Motion, 1);
    r.moved(Crossing::Stay, Target::Remote, (1, 1));
    r.moved(Crossing::Stay, Target::Remote, (2, 2));
    r.captured(Captured::ScrollDiscrete(240), 2);
    r.captured(Captured::ScrollDiscrete(-1), 2);
    let t = r.wake(false, 3 * MS);
    assert_eq!((t.actions.len(), t.next), (0, Next::Wait(4 * MS)));
    let t = r.wake(false, 4 * MS);
    assert_eq!(
        show(&t),
        vec!["send PointerAbs(2, 2) true", "send PointerWheel(-1) true"]
    );
    assert_eq!(t.next, Next::Flushed);
    assert_eq!(r.flushed(true, 4 * MS).next, Next::Wait(300 * MS));
    r.scrolled(-500);
    let t = r.wake(false, 8 * MS);
    assert_eq!(show(&t), vec!["send PointerWheel(127) true"]);
}

#[test]
fn scroll_is_counted_in_whole_detents() {
    let cases = [(119, -119), (120, -1), (359, -2), (-120, 1), (-359, 2), (-7, 7), (0, 0)];
    for (y, want) in cases {
        let mut r = remote();
        r.captured(Captured::ScrollDiscrete(y), 1);
        let t = r.wake(false, 5 * MS);
        if want == 0 {
            assert!(t.actions.is_empty());
        } else {
            assert_eq!(show(&t), vec![format!("send PointerWheel({want}) true")]);
        }
    }
}

#[test]
fn pending_motion_dies_with_the_capture() {
    let mut r = remote();
    r.captured(Captured::Motion, 1);
    r.moved(Crossing::Stay, Target::Remote, (9, 9));
    r.scrolled(3);
    r.deactivated();
    let t = r.wake(false, SEC / 2);
    assert_eq!((t.actions.len(), t.next), (0, Next::Wait(300 * MS)));
}

#[test]
fn crossing_back_brings_input_home() {
    let mut r = remote();
    assert_eq!(r.captured(Captured::Motion, 1).next, Next::AddMotion);
    assert_eq!(r.captured(Captured::ScrollDelta, 1).next, Next::AddScroll);
    assert_eq!(r.captured(Captured::Frame, 1).next, Next::Move);
    let t = r.moved(Crossing::ToLocal, Target::Local, (0, 0));
    assert_eq!(show(&t), home(7, "CrossedBack"));
}

#[test]
fn compositor_and_lock_bring_input_home() {
    assert_eq!(show(&remote().deactivated()), home(7, "Deactivated"));
    assert_eq!(show(&remote().screen_saver(true)), home(7, "ScreenLocked"));
    let mut want = home(7, "Disabled");
    want.push("pause 500000000".to_string());
    want.push("enable".to_string());
    assert_eq!(show(&remote().disabled()), want);
    assert!(Router::new(true, Combo::default(), 0).deactivated().actions.is_empty());
    assert_eq!(show(&Router::new(true, Combo::default(), 0).disabled()), vec!["pause 500000000", "enable"]);
}

#[test]
fn unlock_rearms_the_barriers() {
    let t = Router::new(true, Combo::default(), 0).screen_saver(false);
    assert_eq!(show(&t), vec!["disable", "arm", "enable"]);
}

#[test]
fn stopping_cleans_up() {
    let mut r = remote();
    let t = r.wake(true, 9 * SEC);
    assert_eq!((show(&t), t.next), (home(7, "Shutdown"), Next::Stop(Stop::Shutdown)));
    let t = remote().zones_changed();
    assert_eq!((show(&t), t.next), (home(7, "ZonesChanged"), Next::Stop(Stop::ZonesChanged)));
    let t = remote().captured(Captured::Disconnected, 1);
    assert_eq!(
        (show(&t), t.next),
        (home(7, "CaptureDisconnected"), Next::Stop(Stop::CaptureDisconnected))
    );
    let t = Router::new(true, Combo::default(), 0).wake(true, 1);
    assert_eq!(
        show(&t),
        vec!["send ReleaseAll false", "force-local", "local Shutdown"]
    );
}

#[test]
fn clusters_of_gaps_are_reported_once() {
    let mut r = remote();
    let mut now = 0;
    let mut reports = Vec::new();
    r.captured(Captured::Motion, now);
    for _ in 0..10 {
        now += 200 * MS;
        reports.extend(show(&r.captured(Captured::Motion, now)));
    }
    assert_eq!(reports, vec!["choppy 5", "choppy 5"]);
    for _ in 0..10 {
        now += 600 * MS;
        assert!(r.captured(Captured::Motion, now).actions.is_empty());
    }
    for _ in 0..20 {
        now += 100 * MS;
        assert!(r.captured(Captured::Motion, now).actions.is_empty());
    }
}

#[test]
fn old_gaps_are_forgotten() {
    let mut r = remote();
    let mut now = 0;
    r.captured(Captured::Motion, now);
    for _ in 0..8 {
        now += 200 * MS;
        // Four gaps, then a long rest: never five within the span.
        r.captured(Captured::Motion, now);
        now += 3 * SEC;
        assert!(r.captured(Captured::Motion, now).actions.is_empty());
    }
}

#[test]
fn reasons_tell_apart() {
    assert!(Why::Shutdown != Why::BridgeLost);
}

#[test]
fn push_through_the_edge_and_back() {
    assert_eq!(crossing(Target::Local, Edge::Right, Reach::BeyondRight), Crossing::ToRemote);
    assert_eq!(crossing(Target::Local, Edge::Right, Reach::BeyondLeft), Crossing::Stay);
    assert_eq!(crossing(Target::Local, Edge::Left, Reach::BeyondLeft), Crossing::ToRemote);
    assert_eq!(crossing(Target::Remote, Edge::Right, Reach::BeyondLeft), Crossing::ToLocal);
    assert_eq!(crossing(Target::Remote, Edge::Right, Reach::BeyondRight), Crossing::Stay);
    assert_eq!(crossing(Target::Remote, Edge::Left, Reach::BeyondRight), Crossing::ToLocal);
    assert_eq!(crossing(Target::Remote, Edge::Left, Reach::Within), Crossing::Stay);
    assert_eq!(target_of(Target::Local, Crossing::ToRemote), Target::Remote);
    assert_eq!(target_of(Target::Remote, Crossing::Stay), Target::Remote);
    assert_eq!(target_of(Target::Remote, Crossing::ToLocal), Target::Local);
    assert_eq!(entry_side(Target::Remote, Edge::Right), Side::Left);
    assert_eq!(entry_side(Target::Local, Edge::Right), Side::Right);
    assert_eq!(entry_side(Target::Remote, Edge::Left), Side::Right);
    assert_eq!(entry_side(Target::Local, Edge::Left), Side::Left);
}

#[test]
fn a_failed_send_does_not_put_off_the_keepalive() {
    let mut r = remote();
    r.captured(Captured::Key(30, true), 1);
    r.sent(false, SEC);
    assert_eq!(r.wake(false, SEC + 1).next, Next::Keepalive);
    let mut r = remote();
    r.captured(Captured::Key(30, true), 1);
    r.sent(true, SEC);
    assert_eq!(r.wake(false, SEC + 1).next, Next::Wait(300 * MS));
    assert_eq!(format!("{:?}", Message::Keepalive), "Keepalive");
}
