use beaglewing::capture::{ei_step, EiInput, EiStep};
use beaglewing::portal::{
    after_session_call, first_zone, lacks_method, moved_request, our_signal,
    request_path, request_token, signal_of, start_step, stored_token, ArmStep,
    Arming, PortalCall, PortalSignal, SessionReply, SessionStep, StartStep, Zone, CAPABILITIES, CAP_KEYBOARD, CAP_POINTER,
};
use beaglewing::router::Captured;
use beaglewing::tray::{
    color, describe, router_state, state_text, Command, MenuEntry, RouterState, TrayState,
};

const ZONE: Zone = Zone { width: 2560, height: 1440, x: 10, y: 20 };

#[test]
fn barrier_candidates_in_order() {
    assert!(ZONE.fits());
    assert_eq!(
        ZONE.barrier_candidates(),
        [(2570, 20, 2570, 1459), (2569, 20, 2569, 1459), (2570, 20, 2570, 1460)]
    );
    assert!(!Zone { width: u32::MAX, ..ZONE }.fits());
    assert!(!Zone { x: i32::MAX, ..ZONE }.fits());
    assert!(!Zone { height: 0, y: i32::MIN, ..ZONE }.fits());
    assert!(Zone { width: 0, height: 0, x: 0, y: 0 }.fits());
}

#[test]
fn arming_tries_until_one_sticks() {
    let (mut a, first) = Arming::start(&ZONE);
    assert_eq!(first, ArmStep::Try((2570, 20, 2570, 1459)));
    assert_eq!(a.answered(1), ArmStep::Try((2569, 20, 2569, 1459)));
    assert_eq!(a.answered(0), ArmStep::Armed((2569, 20, 2569, 1459)));
    let (mut a, _) = Arming::start(&ZONE);
    a.answered(1);
    assert_eq!(a.answered(2), ArmStep::Try((2570, 20, 2570, 1460)));
    assert_eq!(a.answered(1), ArmStep::GiveUp);
}

#[test]
fn request_names() {
    assert_eq!(request_token(12), "bw12");
    assert_eq!(
        request_path(":1.234", 7),
        "/org/freedesktop/portal/desktop/request/1_234/bw7"
    );
    assert_eq!(
        request_path("::a.b.c", 0),
        "/org/freedesktop/portal/desktop/request/a_b_c/bw0"
    );
    assert_ne!(request_path(":1.2", 1), request_path(":1.2", 2));
}

#[test]
fn portal_replies() {
    assert!(lacks_method("org.freedesktop.DBus.Error.UnknownMethod"));
    assert!(!lacks_method("org.freedesktop.DBus.Error.AccessDenied"));
    assert_eq!(PortalCall::Start.check(0), Ok(()));
    assert_eq!(
        PortalCall::Start.check(1),
        Err("Start refused (response 1; 1 = user cancelled)".to_string())
    );
    assert_eq!(
        PortalCall::CreateSession.check(2),
        Err("CreateSession refused (response 2; 1 = user cancelled)".to_string())
    );
    assert_eq!(PortalCall::GetZones.check(3), Err("GetZones failed (3)".to_string()));
    assert_eq!(
        PortalCall::SetPointerBarriers.check(10),
        Err("SetPointerBarriers failed (10)".to_string())
    );
    assert_eq!(CAPABILITIES, CAP_KEYBOARD | CAP_POINTER);
}

#[test]
fn portal_signals() {
    assert_eq!(signal_of("Activated"), PortalSignal::Activated);
    assert_eq!(signal_of("Deactivated"), PortalSignal::Deactivated);
    assert_eq!(signal_of("Disabled"), PortalSignal::Disabled);
    assert_eq!(signal_of("ZonesChanged"), PortalSignal::ZonesChanged);
}

#[test]
fn restore_tokens() {
    assert_eq!(stored_token("  abc\n").as_deref(), Some("abc"));
    assert_eq!(stored_token(" \n"), None);
}

#[test]
fn tray_states() {
    assert_eq!(router_state(false, "remote"), RouterState::Stopped);
    assert_eq!(router_state(true, " remote\n"), RouterState::Remote);
    assert_eq!(router_state(true, "no-bridge"), RouterState::NoBridge);
    assert_eq!(router_state(true, ""), RouterState::Local);
    assert_eq!(describe(RouterState::NoBridge), "Router running, Pi bridge unreachable");
    assert_eq!(color(RouterState::Remote), (0x3a, 0x82, 0xe6));
}

#[test]
fn state_text_round_trip() {
    assert_eq!(state_text(true, false), "local");
    assert_eq!(router_state(true, state_text(true, false)), RouterState::Local);
    assert_eq!(router_state(true, state_text(true, true)), RouterState::Remote);
    assert_eq!(router_state(true, state_text(false, false)), RouterState::NoBridge);
}

fn labels(s: &TrayState) -> Vec<String> {
    s.menu()
        .iter()
        .map(|e| match e {
            MenuEntry::Separator => "-".to_string(),
            MenuEntry::Item(l, on, c) => format!("{l} {on} {c:?}"),
            MenuEntry::Check(l, on, c) => format!("[{on}] {l} {c:?}"),
        })
        .collect()
}

#[test]
fn tray_menu() {
    let s = TrayState {
        router: RouterState::Local,
        router_at_login: true,
        clipboard_running: false,
    };
    assert_eq!(
        labels(&s),
        vec![
            "Input: this machine false Nothing",
            "-",
            "Stop router true StopRouter",
            "Restart router true RestartRouter",
            "[true] Start router at login ToggleRouterAtLogin",
            "-",
            "Fetch offered files now false FetchFiles",
            "Start clipboard sync true ToggleClipboard",
            "-",
            "Quit tray true Quit",
        ]
    );
    let stopped = TrayState { router: RouterState::Stopped, clipboard_running: true, ..s };
    let l = labels(&stopped);
    assert_eq!(l[2], "Start router true StartRouter");
    assert_eq!(l[3], "Restart router false RestartRouter");
    assert_eq!(l[7], "Stop clipboard sync true ToggleClipboard");
}

#[test]
fn tray_commands() {
    let s = TrayState {
        router: RouterState::Local,
        router_at_login: true,
        clipboard_running: false,
    };
    assert_eq!(s.service_command(Command::StopRouter), Some(("stop", "beaglewing-router")));
    assert_eq!(s.service_command(Command::StartRouter), Some(("start", "beaglewing-router")));
    assert_eq!(s.service_command(Command::RestartRouter), Some(("restart", "beaglewing-router")));
    assert_eq!(
        s.service_command(Command::ToggleRouterAtLogin),
        Some(("disable", "beaglewing-router"))
    );
    assert_eq!(
        s.service_command(Command::ToggleClipboard),
        Some(("start", "beaglewing-clipboard"))
    );
    assert_eq!(s.service_command(Command::FetchFiles), None);
    assert_eq!(s.tool_tip(), "Input: this machine\nClipboard sync: stopped");
}

#[test]
fn session_flows() {
    assert_eq!(after_session_call(&SessionReply::Answer(true)), SessionStep::Newer);
    assert_eq!(after_session_call(&SessionReply::Answer(false)), SessionStep::NoHandle);
    let unknown = "org.freedesktop.DBus.Error.UnknownMethod".to_string();
    assert_eq!(after_session_call(&SessionReply::MethodError(unknown)), SessionStep::Older);
    let denied = "org.freedesktop.DBus.Error.AccessDenied".to_string();
    assert_eq!(after_session_call(&SessionReply::MethodError(denied)), SessionStep::PassOn);
    assert_eq!(after_session_call(&SessionReply::Failed), SessionStep::PassOn);
    assert_eq!(start_step(true), StartStep::Ask);
    assert_eq!(start_step(false), StartStep::Granted(3));
    assert!(moved_request("/a", "/b"));
    assert!(!moved_request("/a", "/a"));
    assert_eq!(first_zone(&[ZONE, Zone { width: 1, ..ZONE }]), Ok(ZONE));
    assert_eq!(first_zone(&[]), Err("no zones reported"));
    assert_eq!(our_signal("/s", "/s", "Disabled"), Some(PortalSignal::Disabled));
    assert_eq!(our_signal("/t", "/s", "Disabled"), None);
}

#[test]
fn ei_events() {
    assert_eq!(ei_step(EiInput::SeatAdded), EiStep::BindSeat);
    assert_eq!(
        ei_step(EiInput::KeyboardKey(30, true)),
        EiStep::Forward(Captured::Key(30, true))
    );
    assert_eq!(
        ei_step(EiInput::Button(0x110, false)),
        EiStep::Forward(Captured::Button(0x110, false))
    );
    assert_eq!(ei_step(EiInput::PointerMotion), EiStep::Forward(Captured::Motion));
    assert_eq!(
        ei_step(EiInput::ScrollDiscrete(1, -120)),
        EiStep::Forward(Captured::ScrollDiscrete(-120))
    );
    assert_eq!(ei_step(EiInput::ScrollDelta), EiStep::Forward(Captured::ScrollDelta));
    assert_eq!(ei_step(EiInput::Frame), EiStep::Forward(Captured::Frame));
    assert_eq!(ei_step(EiInput::Disconnected), EiStep::ForwardLast(Captured::Disconnected));
    assert_eq!(ei_step(EiInput::Other), EiStep::Skip);
}
