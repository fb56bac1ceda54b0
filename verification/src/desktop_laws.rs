//! What the desktop sees: portal requests, clipboard targets, the status
//! icon and the scripted exercise.

use vstd::prelude::*;

use crate::portal::{
    ArmStep, ArmingView, PortalCall, PortalSignal, SessionReply, SessionStep, Zone,
};
use crate::protocol::Message;
use crate::selection::SourceView;
use crate::tray::{Command, MenuLine, RouterState, TrayState};

verus! {

/// The candidates for the barrier, in order: just right of the zone down to
/// its last row, in its last column down to its last row, and just right of
/// it down to the row below.
pub proof fn candidates_in_order(zone: Zone)
    requires
        zone.spec_fits(),
    ensures
        ({
            let c = zone.right_edges();
            let x = zone.x + zone.width;
            let y = zone.y + zone.height;
            &&& c.len() == 3
            &&& c[0].0 == x && c[0].1 == zone.y && c[0].2 == x && c[0].3 == y - 1
            &&& c[1].0 == x - 1 && c[1].1 == zone.y && c[1].2 == x - 1 && c[1].3 == y - 1
            &&& c[2].0 == x && c[2].1 == zone.y && c[2].2 == x && c[2].3 == y
        }),
{
}

/// A candidate that the compositor does not reject is taken; one that it
/// does is followed by the next, and the last by giving up.
pub proof fn candidates_are_tried_in_turn(a: ArmingView, failed: nat)
    requires
        a.wf(),
    ensures
        failed == 0 ==> a.answered(failed) == ArmStep::Armed(a.candidates[a.tried as int]),
        failed > 0 && a.tried < 2 ==> a.answered(failed) == ArmStep::Try(
            a.candidates[a.tried as int + 1],
        ),
        failed > 0 && a.tried == 2 ==> a.answered(failed) == ArmStep::GiveUp,
{
}

/// A bus name in a request path: the colons in front go, each dot behind
/// them is an underscore, and every other character stays.
pub proof fn bus_names_in_request_paths(s: Seq<char>)
    ensures
        crate::portal::sender_part(seq![':'] + s) == crate::portal::sender_part(s),
        s.len() == 0 || s[0] != ':' ==> {
            let t = crate::portal::sender_part(s);
            &&& t.len() == s.len()
            &&& forall|i: int|
                0 <= i < s.len() ==> #[trigger] t[i] == if s[i] == '.' {
                    '_'
                } else {
                    s[i]
                }
        },
{
    assert((seq![':'] + s).skip(1) =~= s);
}

/// The token of a request is its number; its answer comes on the path made
/// of the portal's, the bus name and the token.
pub proof fn request_paths(unique: Seq<char>, n: nat)
    ensures
        crate::portal::token_text(n) == seq!['b', 'w'] + crate::decimal::decimal(n),
        crate::portal::request_path_text(unique, n)
            == "/org/freedesktop/portal/desktop/request/"@ + crate::portal::sender_part(unique)
            + seq!['/'] + crate::portal::token_text(n),
{
    reveal_strlit("bw");
    reveal_strlit("/");
    assert("bw"@ =~= seq!['b', 'w']);
    assert("/"@ =~= seq!['/']);
}

/// The names of a session's signals; any other is a change of zones.
pub proof fn names_of_signals(name: Seq<char>)
    ensures
        crate::portal::signal_named("Activated"@) == PortalSignal::Activated,
        crate::portal::signal_named("Deactivated"@) == PortalSignal::Deactivated,
        crate::portal::signal_named("Disabled"@) == PortalSignal::Disabled,
        name != "Activated"@ && name != "Deactivated"@ && name != "Disabled"@
            ==> crate::portal::signal_named(name) == PortalSignal::ZonesChanged,
{
    reveal_strlit("Activated");
    reveal_strlit("Deactivated");
    reveal_strlit("Disabled");
    assert("Activated"@.len() == 9 && "Deactivated"@.len() == 11 && "Disabled"@.len() == 8);
}

/// What a call that did not succeed is reported as: a refusal, where the
/// user is asked, or a failure.
pub proof fn failures_in_words(code: u32)
    ensures
        PortalCall::CreateSession.failure_text(code) == "CreateSession"@ + " refused (response "@
            + crate::decimal::decimal(code as nat) + "; 1 = user cancelled)"@,
        PortalCall::Start.failure_text(code) == "Start"@ + " refused (response "@
            + crate::decimal::decimal(code as nat) + "; 1 = user cancelled)"@,
        PortalCall::GetZones.failure_text(code) == "GetZones"@ + " failed ("@
            + crate::decimal::decimal(code as nat) + ")"@,
        PortalCall::SetPointerBarriers.failure_text(code) == "SetPointerBarriers"@ + " failed ("@
            + crate::decimal::decimal(code as nat) + ")"@,
{
}

/// Files come before text, and text before images. Among files the list
/// with a verb comes first, among text the one that is UTF-8; plain text is
/// read as a string. Without any of these there is nothing to read.
pub proof fn sources_in_order(targets: Seq<Seq<char>>)
    ensures
        ({
            let source = crate::selection::source_of(targets);
            let gnome = targets.contains("x-special/gnome-copied-files"@);
            let uris = targets.contains("text/uri-list"@);
            let utf8 = targets.contains("UTF8_STRING"@);
            let plain = targets.contains("STRING"@) || targets.contains("text/plain"@)
                || targets.contains("text/plain;charset=utf-8"@);
            let png = targets.contains("image/png"@);
            &&& gnome ==> source == Some(SourceView::Files("x-special/gnome-copied-files"@))
            &&& uris && !gnome ==> source == Some(SourceView::Files("text/uri-list"@))
            &&& utf8 && !gnome && !uris ==> source == Some(SourceView::Text("UTF8_STRING"@))
            &&& plain && !utf8 && !gnome && !uris ==> source == Some(SourceView::Text("STRING"@))
            &&& png && !plain && !utf8 && !gnome && !uris ==> source == Some(
                SourceView::Image("image/png"@),
            )
            &&& source is None <==> !gnome && !uris && !utf8 && !plain && !png
        }),
{
}

/// What the icon makes of the router: whether it runs, and the word that it
/// left, with any white space around it.
pub proof fn states_behind_words(text: Seq<char>)
    ensures
        crate::tray::state_of(false, text) == RouterState::Stopped,
        crate::text::trimmed(text) == "remote"@ ==> crate::tray::state_of(true, text)
            == RouterState::Remote,
        crate::text::trimmed(text) == "no-bridge"@ ==> crate::tray::state_of(true, text)
            == RouterState::NoBridge,
        crate::text::trimmed(text) != "remote"@ && crate::text::trimmed(text) != "no-bridge"@
            ==> crate::tray::state_of(true, text) == RouterState::Local,
        crate::tray::text_of_state(true, false) == "local"@,
        crate::tray::text_of_state(false, false) == "no-bridge"@,
        crate::tray::text_of_state(true, true) == "remote"@,
        crate::tray::text_of_state(false, true) == "remote"@,
{
    reveal_strlit("remote");
    reveal_strlit("no-bridge");
    assert("remote"@.len() != "no-bridge"@.len());
}

/// The states in words.
pub proof fn states_in_words()
    ensures
        crate::tray::description(RouterState::Stopped) == "Router stopped"@,
        crate::tray::description(RouterState::NoBridge) == "Router running, Pi bridge unreachable"@,
        crate::tray::description(RouterState::Local) == "Input: this machine"@,
        crate::tray::description(RouterState::Remote) == "Input: other machine"@,
{
}

/// The menu does what it says: a line that stops, starts or restarts a
/// service has that service stopped, started or restarted, and the check
/// mark for the login shows what choosing it turns round.
pub proof fn the_menu_does_what_it_says(s: TrayState)
    ensures
        ({
            let m = s.menu_lines();
            let stopped = s.router == RouterState::Stopped;
            &&& m.len() == 10
            &&& m[0] == MenuLine::Item(
                crate::tray::description(s.router),
                false,
                Command::Nothing,
            )
            &&& m[1] == MenuLine::Separator && m[5] == MenuLine::Separator && m[8]
                == MenuLine::Separator
            &&& m[2] matches MenuLine::Item(label, enabled, c) && enabled && if stopped {
                label == "Start router"@ && s.service_verb(c) == Some(
                    ("start"@, "beaglewing-router"@),
                )
            } else {
                label == "Stop router"@ && s.service_verb(c) == Some(
                    ("stop"@, "beaglewing-router"@),
                )
            }
            &&& m[3] matches MenuLine::Item(label, enabled, c) && enabled == !stopped && label
                == "Restart router"@ && s.service_verb(c) == Some(
                ("restart"@, "beaglewing-router"@),
            )
            &&& m[4] matches MenuLine::Check(label, checked, c) && label
                == "Start router at login"@ && checked == s.router_at_login && s.service_verb(c)
                == Some(
                (
                    if checked {
                        "disable"@
                    } else {
                        "enable"@
                    },
                    "beaglewing-router"@,
                ),
            )
            &&& m[6] matches MenuLine::Item(label, enabled, c) && label
                == "Fetch offered files now"@ && enabled == s.clipboard_running && c
                == Command::FetchFiles && s.service_verb(c) is None
            &&& m[7] matches MenuLine::Item(label, enabled, c) && enabled
                && if s.clipboard_running {
                label == "Stop clipboard sync"@ && s.service_verb(c) == Some(
                    ("stop"@, "beaglewing-clipboard"@),
                )
            } else {
                label == "Start clipboard sync"@ && s.service_verb(c) == Some(
                    ("start"@, "beaglewing-clipboard"@),
                )
            }
            &&& m[9] == MenuLine::Item("Quit tray"@, true, Command::Quit) && s.service_verb(
                Command::Quit,
            ) is None
        }),
{
}

/// The exercise lets go of what it holds: each key that it presses it
/// releases next, a click is a press and a release of the left button, and
/// the last message releases everything.
pub proof fn the_exercise_lets_go(click: bool, i: int)
    requires
        0 <= i < 10,
    ensures
        ({
            let s = crate::selftest::script_of(click);
            let n: int = if click {
                8
            } else {
                6
            };
            let keys = seq![0x15u8, 0x12, 0x18, 0x17, 0x08, 0x15, 0x2c, 0x12, 0x0e, 0x28];
            &&& s.len() == n + 21
            &&& s[n + 2 * i].message == Message::KeyDown(keys[i]) && s[n + 2 * i].pause == 20
            &&& s[n + 2 * i + 1].message == Message::KeyUp(keys[i]) && s[n + 2 * i + 1].pause == 20
            &&& s[n + 20].message == Message::ReleaseAll && s[n + 20].pause == 0
            &&& click ==> s[6].message == Message::PointerButton(1) && s[6].pause == 50
                && s[7].message == Message::PointerButton(0) && s[7].pause == 0
            &&& s[0].message == Message::PointerAbs(32768, 32768)
            &&& s[1].message == Message::PointerAbs(16384, 32768)
            &&& s[2].message == Message::PointerAbs(32768, 16384)
            &&& s[3].message == Message::PointerAbs(49152, 32768)
            &&& s[4].message == Message::PointerAbs(32768, 49152)
            &&& s[5].message == Message::PointerAbs(32768, 32768)
            &&& forall|j: int| 0 <= j < 6 ==> (#[trigger] s[j]).pause == 200
        }),
{
    let s = crate::selftest::script_of(click);
    let n: int = if click {
        8
    } else {
        6
    };
    assert((2 * i) % 2 == 0 && (2 * i) / 2 == i);
    assert((2 * i + 1) % 2 == 1 && (2 * i + 1) / 2 == i);
    assert(s[n + 2 * i].message == Message::KeyDown(crate::selftest::typed()[i]));
    assert(s[n + 2 * i + 1].message == Message::KeyUp(crate::selftest::typed()[i]));
}

/// The older flow is used exactly if the newer call is missing: the name of
/// its error ends with that. With an answer the session is there, if it has
/// a handle.
pub proof fn flows_of_the_portal(name: String, front: Seq<char>)
    ensures
        crate::portal::session_step(SessionReply::Answer(true)) == SessionStep::Newer,
        crate::portal::session_step(SessionReply::Answer(false)) == SessionStep::NoHandle,
        crate::portal::session_step(SessionReply::Failed) == SessionStep::PassOn,
        name@ == front + "UnknownMethod"@ ==> crate::portal::session_step(
            SessionReply::MethodError(name),
        ) == SessionStep::Older,
        (forall|f: Seq<char>| name@ != #[trigger] (f + "UnknownMethod"@))
            ==> crate::portal::session_step(SessionReply::MethodError(name))
            == SessionStep::PassOn,
{
    crate::text_laws::an_end_has_a_front(name@, "UnknownMethod"@);
}

/// Each state has a color of its own.
pub proof fn colors_tell_states_apart(a: RouterState, b: RouterState)
    ensures
        crate::tray::color_of(a) == crate::tray::color_of(b) <==> a == b,
        crate::tray::color_of(RouterState::Stopped) == (144u8, 144u8, 144u8),
        crate::tray::color_of(RouterState::NoBridge) == (232u8, 93u8, 46u8),
        crate::tray::color_of(RouterState::Local) == (60u8, 184u8, 100u8),
        crate::tray::color_of(RouterState::Remote) == (58u8, 130u8, 230u8),
{
}

} // verus!
