//! What each kind of captured input, and each event around it, leads to.

use vstd::prelude::*;

use crate::capture::{EiInput, EiStep};
use crate::emergency::Emergency;
use crate::geometry::{Crossing, Edge, Reach, Side, Target};
use crate::protocol::Message;
use crate::router::{Action, Captured, Next, RouterView, Stop, Why};
use crate::router_laws::Input;

verus! {

/// Whether all that a list of actions does is to say that input is choppy,
/// at most once.
pub open spec fn says_choppy_at_most(actions: Seq<Action>) -> bool {
    &&& actions.len() <= 1
    &&& actions.len() == 1 ==> actions[0] is ReportChoppy
}

/// Which of the three keys of the combo are held once a key has gone down or
/// up.
pub open spec fn held_now(e: Emergency, usage: int, pressed: bool) -> (bool, bool, bool) {
    (
        if usage == e.combo.first {
            pressed
        } else {
            e.first
        },
        if usage == e.combo.second {
            pressed
        } else {
            e.second
        },
        if usage == e.combo.third {
            pressed
        } else {
            e.third
        },
    )
}

/// A key goes to the other machine, whichever key it is: while remote, and
/// unless it completes the emergency combo, a press or a release of any key
/// that has a usage sends one message with that usage, which matters, and
/// nothing else. The keys of the combo are no exception.
pub proof fn keys_reach_the_other_machine(
    s: RouterView,
    code: u32,
    pressed: bool,
    usage: int,
    now: u64,
)
    requires
        s.active is Some,
        s.bridge_up,
        crate::hidmap::usage_of(code as int % 65536) == Some(usage),
        !(held_now(s.emergency, usage, pressed).0 && held_now(s.emergency, usage, pressed).1
            && held_now(s.emergency, usage, pressed).2),
    ensures
        ({
            let d = crate::router_laws::react(
                s,
                Input::Captured(Captured::Key(code, pressed)),
                now,
            );
            &&& d.actions.len() >= 1
            &&& pressed ==> d.actions.last() == Action::Send(Message::KeyDown(usage as u8), true)
            &&& !pressed ==> d.actions.last() == Action::Send(Message::KeyUp(usage as u8), true)
            &&& says_choppy_at_most(d.actions.drop_last())
            &&& d.next == Next::Sent
            &&& d.state == (RouterView { emergency: d.state.emergency, ..s.noted(now) })
            &&& d.state.active == s.active
            &&& d.state.emergency.combo == s.emergency.combo
            &&& (d.state.emergency.first, d.state.emergency.second, d.state.emergency.third)
                == held_now(s.emergency, usage, pressed)
        }),
{
    crate::hidmap::usages_are_distinct(code as int % 65536, code as int % 65536);
    let d = crate::router_laws::react(s, Input::Captured(Captured::Key(code, pressed)), now);
    assert(d.actions.drop_last() =~= s.noted_actions(now));
}

/// The key with which all three are held brings input home instead, for that
/// reason: it is not sent, and the combo is to be pressed anew.
pub proof fn the_combo_brings_input_home(
    s: RouterView,
    id: u32,
    code: u32,
    pressed: bool,
    usage: int,
    now: u64,
)
    requires
        s.active == Some(id),
        s.bridge_up,
        crate::hidmap::usage_of(code as int % 65536) == Some(usage),
        held_now(s.emergency, usage, pressed) == (true, true, true),
    ensures
        ({
            let d = crate::router_laws::react(
                s,
                Input::Captured(Captured::Key(code, pressed)),
                now,
            );
            &&& d.actions == s.noted_actions(now) + seq![
                Action::Send(Message::ReleaseAll, false),
                Action::ForceLocal,
                Action::ReleaseCapture(id),
                Action::AnnounceLocal(Why::EmergencyHotkey),
            ]
            &&& d.next == Next::Wake
            &&& d.state == (RouterView {
                active: None,
                buttons: 0,
                emergency: Emergency {
                    combo: s.emergency.combo,
                    first: false,
                    second: false,
                    third: false,
                },
                ..s.noted(now)
            })
        }),
{
    crate::hidmap::usages_are_distinct(code as int % 65536, code as int % 65536);
    going_home_in_order(s, Why::EmergencyHotkey, id);
    let t = RouterView {
        emergency: Emergency {
            combo: s.emergency.combo,
            first: false,
            second: false,
            third: false,
        },
        ..s.noted(now)
    };
    going_home_in_order(t, Why::EmergencyHotkey, id);
}

/// A key without a usage sends nothing and changes nothing.
pub proof fn unknown_keys_are_passed_over(s: RouterView, code: u32, pressed: bool, now: u64)
    requires
        s.active is Some,
        crate::hidmap::usage_of(code as int % 65536) is None,
    ensures
        ({
            let d = crate::router_laws::react(
                s,
                Input::Captured(Captured::Key(code, pressed)),
                now,
            );
            says_choppy_at_most(d.actions) && d.next == Next::Wake && d.state == s.noted(now)
        }),
{
    let d = crate::router_laws::react(s, Input::Captured(Captured::Key(code, pressed)), now);
    assert(d.actions =~= s.noted_actions(now));
}

/// The left, right and middle button are the three low bits of the button
/// state: a press sets the button's bit, a release clears it, the others
/// stay. The whole state is sent, and matters; a position that waits goes
/// right before it.
pub proof fn buttons_reach_the_other_machine(
    s: RouterView,
    i: u8,
    j: u8,
    code: u32,
    pressed: bool,
    now: u64,
)
    requires
        s.active is Some,
        s.bridge_up,
        i < 3,
        j < 8,
        code as int % 65536 == 0x110 + i,
    ensures
        ({
            let d = crate::router_laws::react(
                s,
                Input::Captured(Captured::Button(code, pressed)),
                now,
            );
            let n = d.actions.len();
            &&& (d.state.buttons >> j) % 2 == if i != j {
                (s.buttons >> j) % 2
            } else if pressed {
                1
            } else {
                0
            }
            &&& n >= 1 && d.actions.last() == Action::Send(
                Message::PointerButton(d.state.buttons),
                true,
            )
            &&& d.next == Next::Sent
            &&& s.pending_pos matches Some(p) ==> {
                &&& n >= 2 && d.actions[n - 2] == Action::Send(
                    Message::PointerAbs(p.0, p.1),
                    false,
                )
                &&& says_choppy_at_most(d.actions.take(n - 2))
                &&& d.state == (RouterView {
                    buttons: d.state.buttons,
                    pending_pos: None,
                    last_ptr_send: now,
                    ..s.noted(now)
                })
            }
            &&& s.pending_pos is None ==> {
                &&& says_choppy_at_most(d.actions.drop_last())
                &&& d.state == (RouterView { buttons: d.state.buttons, ..s.noted(now) })
            }
        }),
{
    let b = s.buttons;
    assert(1u8 << 0u8 == 1u8 && 1u8 << 1u8 == 2u8 && 1u8 << 2u8 == 4u8) by (bit_vector);
    assert(((b | (1u8 << i)) >> j) % 2 == if i == j {
        1u8
    } else {
        (b >> j) % 2
    }) by (bit_vector)
        requires
            i < 8,
            j < 8,
    ;
    assert(((b & !(1u8 << i)) >> j) % 2 == if i == j {
        0u8
    } else {
        (b >> j) % 2
    }) by (bit_vector)
        requires
            i < 8,
            j < 8,
    ;
    let d = crate::router_laws::react(s, Input::Captured(Captured::Button(code, pressed)), now);
    let n = d.actions.len();
    if s.pending_pos is Some {
        assert(d.actions.take(n - 2) =~= s.noted_actions(now));
    } else {
        assert(d.actions.drop_last() =~= s.noted_actions(now));
    }
}

/// Any other button sends nothing and changes nothing.
pub proof fn unknown_buttons_are_passed_over(s: RouterView, code: u32, pressed: bool, now: u64)
    requires
        s.active is Some,
        !(0x110 <= code as int % 65536 <= 0x112),
    ensures
        ({
            let d = crate::router_laws::react(
                s,
                Input::Captured(Captured::Button(code, pressed)),
                now,
            );
            says_choppy_at_most(d.actions) && d.next == Next::Wake && d.state == s.noted(now)
        }),
{
    let d = crate::router_laws::react(s, Input::Captured(Captured::Button(code, pressed)), now);
    assert(d.actions =~= s.noted_actions(now));
}

/// A discrete scroll is in 120ths of a detent, and its whole detents count,
/// the same up and down; fewer than 120 are detents themselves. So is the
/// one number that is too far down to be counted up.
pub proof fn detents_are_counted(k: int, r: int, y: i32)
    requires
        0 <= r < 120,
        0 <= k,
    ensures
        k > 0 && y == 120 * k + r ==> crate::router::detents_of(y) == k,
        k > 0 && y == -(120 * k + r) && y > i32::MIN ==> crate::router::detents_of(y) == -k,
        -120 < y < 120 || y == i32::MIN ==> crate::router::detents_of(y) == y,
{
}

/// Scrolling adds up until it is sent, in detents, and turned round: down is
/// positive as it is captured, and negative as it is sent. Nothing is sent
/// for it at once.
pub proof fn scrolling_adds_up(s: RouterView, y: i32, detents: i32, now: u64)
    requires
        s.active is Some,
        i32::MIN <= s.pending_wheel - crate::router::detents_of(y) <= i32::MAX,
        i32::MIN <= s.pending_wheel - detents <= i32::MAX,
    ensures
        ({
            let d = crate::router_laws::react(s, Input::Captured(Captured::ScrollDiscrete(y)), now);
            &&& d.state == (RouterView { pending_wheel: d.state.pending_wheel, ..s.noted(now) })
            &&& d.state.pending_wheel == s.pending_wheel - crate::router::detents_of(y)
            &&& says_choppy_at_most(d.actions)
            &&& d.next == Next::Wake
        }),
        ({
            let d = crate::router_laws::react(s, Input::Scrolled(detents), now);
            &&& d.state == (RouterView { pending_wheel: d.state.pending_wheel, ..s })
            &&& d.state.pending_wheel == s.pending_wheel - detents
            &&& d.actions.len() == 0
            &&& d.next == Next::Wake
        }),
{
    let d = crate::router_laws::react(s, Input::Captured(Captured::ScrollDiscrete(y)), now);
    assert(d.actions =~= s.noted_actions(now));
    assert(i32::MIN <= crate::router::detents_of(y) <= i32::MAX);
}

/// The other captured events: motion and scroll distances are added up by
/// the caller, and the end of a group of events moves the cursor. Losing the
/// capture brings input home and stops the router.
pub proof fn other_events_are_handed_on(s: RouterView, now: u64)
    requires
        s.active is Some,
    ensures
        ({
            let motion = crate::router_laws::react(s, Input::Captured(Captured::Motion), now);
            let delta = crate::router_laws::react(s, Input::Captured(Captured::ScrollDelta), now);
            let frame = crate::router_laws::react(s, Input::Captured(Captured::Frame), now);
            let gone = crate::router_laws::react(s, Input::Captured(Captured::Disconnected), now);
            &&& motion.next == Next::AddMotion && motion.state == s.noted(now)
                && says_choppy_at_most(motion.actions)
            &&& delta.next == Next::AddScroll && delta.state == s.noted(now)
                && says_choppy_at_most(delta.actions)
            &&& frame.next == Next::Move && frame.state == s.noted(now) && says_choppy_at_most(
                frame.actions,
            )
            &&& gone.next == Next::Stop(Stop::CaptureDisconnected)
            &&& gone.state == (RouterView { active: None, buttons: 0, ..s.noted(now) })
            &&& gone.actions == s.noted_actions(now) + s.local_actions(Why::CaptureDisconnected)
        }),
{
    let none = Seq::<Action>::empty();
    assert(s.noted_actions(now) + none =~= s.noted_actions(now));
    let gone = crate::router_laws::react(s, Input::Captured(Captured::Disconnected), now);
    assert(s.noted(now).local_actions(Why::CaptureDisconnected) == s.local_actions(
        Why::CaptureDisconnected,
    ));
    assert(gone.actions =~= s.noted_actions(now) + s.local_actions(Why::CaptureDisconnected));
}

/// Input that is captured while nothing is, is passed over.
pub proof fn stray_input_is_passed_over(s: RouterView, ev: Captured, now: u64)
    requires
        s.active is None,
    ensures
        ({
            let d = crate::router_laws::react(s, Input::Captured(ev), now);
            d.state == s && d.actions.len() == 0 && d.next == Next::Wake
        }),
{
}

/// What waits is sent together, the newest position before the wheel steps
/// (as many as a message can carry), once four milliseconds have gone by
/// since the last time; until then the router waits for that long at most,
/// and for 300 ms when nothing waits.
pub proof fn waiting_input_is_sent(s: RouterView, now: u64, pos: (u16, u16), wheel: i8)
    requires
        s.active is Some,
        s.bridge_up,
        now <= s.last_send + 1_000_000_000,
        s.events_this_activation || now <= s.activated_at + 3_000_000_000,
    ensures
        ({
            let d = crate::router_laws::react(s, Input::Wake(false), now);
            let waits = s.pending_pos is Some || s.pending_wheel != 0;
            let due = now >= s.last_ptr_send + 4_000_000;
            let at = Action::Send(Message::PointerAbs(pos.0, pos.1), true);
            let turn = Action::Send(Message::PointerWheel(wheel), true);
            &&& waits && due ==> {
                &&& d.next == Next::Flushed
                &&& d.state == (RouterView { pending_pos: None, pending_wheel: 0, ..s })
                &&& s.pending_pos == Some(pos) && s.pending_wheel == 0 ==> d.actions == seq![at]
                &&& s.pending_pos is None && (s.pending_wheel == wheel && wheel != -128 || (
                s.pending_wheel > 127 && wheel == 127) || (s.pending_wheel < -127 && wheel
                    == -127)) ==> d.actions == seq![turn]
                &&& s.pending_pos == Some(pos) && s.pending_wheel != 0 && (s.pending_wheel == wheel
                    && wheel != -128 || (s.pending_wheel > 127 && wheel == 127) || (
                s.pending_wheel < -127 && wheel == -127)) ==> d.actions == seq![at, turn]
            }
            &&& waits && !due && now >= s.last_ptr_send ==> {
                d.state == s && d.actions.len() == 0 && d.next == Next::Wait(4_000_000)
            }
            &&& !waits ==> {
                d.state == s && d.actions.len() == 0 && d.next == Next::Wait(300_000_000)
            }
        }),
{
    let d = crate::router_laws::react(s, Input::Wake(false), now);
    let at = Action::Send(Message::PointerAbs(pos.0, pos.1), true);
    let turn = Action::Send(Message::PointerWheel(wheel), true);
    assert(seq![at] + Seq::empty() =~= seq![at]);
    assert(Seq::<Action>::empty() + seq![turn] =~= seq![turn]);
    assert(seq![at] + seq![turn] =~= seq![at, turn]);
}

/// How a send went is remembered: one that went through puts the keepalive
/// off, one of a position or of wheel steps starts the interval anew, and
/// nothing else changes. What came in meanwhile is waited for accordingly.
pub proof fn sends_are_remembered(s: RouterView, ok: bool, now: u64)
    ensures
        ({
            let sent = crate::router_laws::react(s, Input::Sent(ok), now);
            let flushed = crate::router_laws::react(s, Input::Flushed(ok), now);
            let last_send = if ok {
                now
            } else {
                s.last_send
            };
            &&& sent.state == (RouterView { last_send, ..s })
            &&& sent.actions.len() == 0 && sent.next == Next::Wake
            &&& flushed.state == (RouterView { last_send, last_ptr_send: now, ..s })
            &&& flushed.actions.len() == 0
            &&& s.pending_pos is Some || s.pending_wheel != 0 ==> flushed.next == Next::Wait(
                4_000_000,
            )
            &&& s.pending_pos is None && s.pending_wheel == 0 ==> flushed.next == Next::Wait(
                300_000_000,
            )
        }),
{
}

/// A capture with a bridge to send to goes remote: the pointer goes to where
/// it came in, the agent is told, and what was left from before is gone.
pub proof fn captures_go_remote(s: RouterView, id: u32, entry: (u16, u16), now: u64)
    requires
        s.bridge_up,
    ensures
        ({
            let d = crate::router_laws::react(s, Input::Activated(id, entry), now);
            &&& d.actions == seq![
                Action::EnterRemote,
                Action::Send(Message::PointerAbs(entry.0, entry.1), false),
                Action::AnnounceRemote,
            ]
            &&& d.next == Next::Wake
            &&& d.state == (RouterView {
                active: Some(id),
                activated_at: now,
                events_this_activation: false,
                emergency: Emergency {
                    combo: s.emergency.combo,
                    first: false,
                    second: false,
                    third: false,
                },
                pending_pos: None,
                pending_wheel: 0,
                last_send: now,
                ..s
            })
        }),
{
}

/// Without a bridge a capture is given back at once, for that reason, and
/// nothing else changes.
pub proof fn captures_need_a_bridge(s: RouterView, id: u32, entry: (u16, u16), now: u64)
    requires
        !s.bridge_up,
    ensures
        ({
            let d = crate::router_laws::react(s, Input::Activated(id, entry), now);
            &&& d.actions == seq![
                Action::ForceLocal,
                Action::ReleaseCapture(id),
                Action::AnnounceLocal(Why::NoBridge),
            ]
            &&& d.next == Next::Wake
            &&& d.state == (RouterView { active: None, buttons: 0, ..s })
        }),
{
    going_home_in_order(RouterView { active: Some(id), ..s }, Why::NoBridge, id);
}

/// Going home, in order: everything is released on the other machine, if it
/// can be reached; the cursor is put back; the capture, if there is one, is
/// given back; and the agent is told why.
pub proof fn going_home_in_order(s: RouterView, why: Why, id: u32)
    ensures
        s.bridge_up && s.active == Some(id) ==> s.local_actions(why) == seq![
            Action::Send(Message::ReleaseAll, false),
            Action::ForceLocal,
            Action::ReleaseCapture(id),
            Action::AnnounceLocal(why),
        ],
        s.bridge_up && s.active is None ==> s.local_actions(why) == seq![
            Action::Send(Message::ReleaseAll, false),
            Action::ForceLocal,
            Action::AnnounceLocal(why),
        ],
        !s.bridge_up && s.active == Some(id) ==> s.local_actions(why) == seq![
            Action::ForceLocal,
            Action::ReleaseCapture(id),
            Action::AnnounceLocal(why),
        ],
        !s.bridge_up && s.active is None ==> s.local_actions(why) == seq![
            Action::ForceLocal,
            Action::AnnounceLocal(why),
        ],
        s.local() == (RouterView { active: None, buttons: 0, ..s }),
{
}

/// Events that bring input home, with the reason that is told: a capture
/// that the compositor takes back, and a locked screen, only if input is
/// remote; crossing back and a change of displays in any case.
pub proof fn reasons_to_go_home(s: RouterView, id: u32, pos: (u16, u16), on: Target, now: u64)
    requires
        s.active == Some(id),
    ensures
        ({
            let home = RouterView { active: None, buttons: 0, ..s };
            let deactivated = crate::router_laws::react(s, Input::Deactivated, now);
            let locked = crate::router_laws::react(s, Input::ScreenSaver(true), now);
            let disabled = crate::router_laws::react(s, Input::Disabled, now);
            let zones = crate::router_laws::react(s, Input::ZonesChanged, now);
            let back = crate::router_laws::react(s, Input::Moved(Crossing::ToLocal, on, pos), now);
            &&& deactivated.state == home && deactivated.next == Next::Wake && deactivated.actions
                == s.local_actions(Why::Deactivated)
            &&& locked.state == home && locked.next == Next::Wake && locked.actions
                == s.local_actions(Why::ScreenLocked)
            &&& disabled.state == home && disabled.next == Next::Wake && disabled.actions
                == s.local_actions(Why::Disabled) + seq![
                Action::Pause(500_000_000),
                Action::EnableCapture,
            ]
            &&& zones.state == home && zones.next == Next::Stop(Stop::ZonesChanged)
                && zones.actions == s.local_actions(Why::ZonesChanged)
            &&& back.state == home && back.next == Next::Wake && back.actions == s.local_actions(
                Why::CrossedBack,
            )
        }),
{
}

/// While input is local, the compositor and a locked screen change nothing;
/// a capture that was disabled is enabled again after half a second, and an
/// unlocked screen has the barriers placed anew.
pub proof fn events_while_local(s: RouterView, now: u64)
    ensures
        s.active is None ==> {
            let deactivated = crate::router_laws::react(s, Input::Deactivated, now);
            let locked = crate::router_laws::react(s, Input::ScreenSaver(true), now);
            let disabled = crate::router_laws::react(s, Input::Disabled, now);
            &&& deactivated.state == s && deactivated.actions.len() == 0 && deactivated.next
                == Next::Wake
            &&& locked.state == s && locked.actions.len() == 0 && locked.next == Next::Wake
            &&& disabled.state == s && disabled.next == Next::Wake && disabled.actions == seq![
                Action::Pause(500_000_000),
                Action::EnableCapture,
            ]
        },
        ({
            let unlocked = crate::router_laws::react(s, Input::ScreenSaver(false), now);
            &&& unlocked.state == s && unlocked.next == Next::Wake
            &&& unlocked.actions == seq![
                Action::DisableCapture,
                Action::ArmBarriers,
                Action::EnableCapture,
            ]
        }),
{
    let rearm = seq![Action::Pause(500_000_000), Action::EnableCapture];
    assert(Seq::<Action>::empty() + rearm =~= rearm);
}

/// A motion that stays on the remote screen leaves its position waiting, in
/// place of any other, and sends nothing; one that stays on the local screen
/// changes nothing.
pub proof fn motion_waits_to_be_sent(s: RouterView, pos: (u16, u16), now: u64)
    ensures
        ({
            let d = crate::router_laws::react(
                s,
                Input::Moved(Crossing::Stay, Target::Remote, pos),
                now,
            );
            &&& d.state == (RouterView { pending_pos: Some(pos), ..s })
            &&& d.actions.len() == 0 && d.next == Next::Wake
        }),
        ({
            let d = crate::router_laws::react(
                s,
                Input::Moved(Crossing::Stay, Target::Local, pos),
                now,
            );
            d.state == s && d.actions.len() == 0 && d.next == Next::Wake
        }),
{
}

/// The router wakes, in this order: a shutdown request; a bridge that has
/// been quiet for more than a second is kept alive; a bridge that is gone is
/// looked for every two seconds; and a capture that has brought nothing for
/// three seconds is given back.
pub proof fn waking_in_order(s: RouterView, now: u64)
    ensures
        ({
            let d = crate::router_laws::react(s, Input::Wake(false), now);
            let stop = crate::router_laws::react(s, Input::Wake(true), now);
            let quiet = now > s.last_send + 1_000_000_000;
            let look = now > s.last_reconnect + 2_000_000_000;
            let stuck = s.active is Some && !s.events_this_activation && now > s.activated_at
                + 3_000_000_000;
            &&& stop.next == Next::Stop(Stop::Shutdown) && stop.actions == s.local_actions(
                Why::Shutdown,
            ) && stop.state == (RouterView { active: None, buttons: 0, ..s })
            &&& d.next == Next::Keepalive <==> s.bridge_up && quiet
            &&& d.next == Next::Keepalive ==> d.state == s && d.actions.len() == 0
            &&& d.next == Next::Connect <==> !s.bridge_up && look
            &&& d.next == Next::Connect ==> d.state == (RouterView { last_reconnect: now, ..s })
                && d.actions.len() == 0
            &&& !(s.bridge_up && quiet) && !(!s.bridge_up && look) && stuck ==> {
                &&& d.actions == s.local_actions(Why::Failsafe)
                &&& d.state == (RouterView {
                    active: None,
                    buttons: 0,
                    pending_pos: None,
                    pending_wheel: 0,
                    ..s
                })
                &&& d.next == Next::Wait(300_000_000)
            }
            &&& !(s.bridge_up && quiet) && !(!s.bridge_up && look) && s.active is None ==> {
                &&& d.actions.len() == 0
                &&& d.state == (RouterView { pending_pos: None, pending_wheel: 0, ..s })
                &&& d.next == Next::Wait(300_000_000)
            }
        }),
{
    let none = Seq::<Action>::empty();
    assert(s.local_actions(Why::Failsafe) + none =~= s.local_actions(Why::Failsafe));
}

/// A bridge that is reached, while local, is told first to release
/// everything, and counts as up from then on; one that is not reached stays
/// down.
pub proof fn found_bridges_are_released(s: RouterView, now: u64)
    requires
        s.active is None,
    ensures
        ({
            let d = crate::router_laws::react(s, Input::Connected(true), now);
            &&& d.actions == seq![Action::Send(Message::ReleaseAll, false)]
            &&& d.state == (RouterView {
                bridge_up: true,
                last_send: now,
                pending_pos: None,
                pending_wheel: 0,
                ..s
            })
            &&& d.next == Next::Wait(300_000_000)
        }),
        ({
            let d = crate::router_laws::react(s, Input::Connected(false), now);
            &&& d.actions.len() == 0
            &&& d.state == (RouterView { pending_pos: None, pending_wheel: 0, ..s })
            &&& d.next == Next::Wait(300_000_000)
        }),
{
    let all = seq![Action::Send(Message::ReleaseAll, false)];
    assert(all + Seq::<Action>::empty() =~= all);
}

/// A keepalive that went through puts the next one off, and the router goes
/// on. One that did not is the loss of the bridge: input goes home, for that
/// reason, without the bridge, and if the bridge was last looked for more
/// than two seconds ago it is looked for at once.
pub proof fn keepalives_find_out(s: RouterView, id: u32, now: u64)
    requires
        s.wf(),
        s.bridge_up,
    ensures
        crate::router_laws::react(s, Input::KeepaliveSent(true), now) == crate::router_laws::react(
            RouterView { last_send: now, ..s },
            Input::Wake(false),
            now,
        ),
        ({
            let d = crate::router_laws::react(s, Input::KeepaliveSent(false), now);
            &&& s.active == Some(id) ==> d.actions == seq![
                Action::ForceLocal,
                Action::ReleaseCapture(id),
                Action::AnnounceLocal(Why::BridgeLost),
            ]
            &&& s.active is None ==> d.actions.len() == 0
            &&& now > s.last_reconnect + 2_000_000_000 ==> d.next == Next::Connect && d.state == (
            RouterView {
                bridge_up: false,
                active: None,
                buttons: 0,
                last_reconnect: now,
                ..s
            })
            &&& now <= s.last_reconnect + 2_000_000_000 ==> d.next == Next::Wait(300_000_000)
                && d.state == (RouterView {
                bridge_up: false,
                active: None,
                buttons: 0,
                pending_pos: None,
                pending_wheel: 0,
                ..s
            })
        }),
{
    let lost = RouterView { bridge_up: false, ..s };
    if s.active is Some {
        assert(lost.local_actions(Why::BridgeLost) =~= seq![
            Action::ForceLocal,
            Action::ReleaseCapture(s.active->0),
            Action::AnnounceLocal(Why::BridgeLost),
        ]);
        let home = seq![
            Action::ForceLocal,
            Action::ReleaseCapture(s.active->0),
            Action::AnnounceLocal(Why::BridgeLost),
        ];
        assert(home + Seq::<Action>::empty() =~= home);
    }
}

/// Taking note of a captured event: it counts from now on, and changes
/// nothing but the gaps that are kept. A gap counts if it is longer than 100
/// ms and shorter than 500 ms, and not the first; any other leaves the gaps
/// as they are, and nothing is said.
pub proof fn other_gaps_do_not_count(s: RouterView, now: u64)
    ensures
        s.noted(now) == (RouterView {
            gap_times: s.noted(now).gap_times,
            last_capture_event: now,
            events_this_activation: true,
            ..s
        }),
        !s.events_this_activation || now <= s.last_capture_event + 100_000_000 || now
            >= s.last_capture_event + 500_000_000 ==> s.noted(now).gap_times == s.gap_times
            && s.noted_actions(now).len() == 0,
        says_choppy_at_most(s.noted_actions(now)),
{
}

/// A gap that counts is kept with those of the last ten seconds, and older
/// ones are dropped. With the fifth, input is said to be choppy, with their
/// number, and counting begins anew.
pub proof fn gaps_that_count(s: RouterView, now: u64, recent: Seq<u64>)
    requires
        s.events_this_activation,
        s.last_capture_event + 100_000_000 < now < s.last_capture_event + 500_000_000,
        recent == s.gap_times.filter(|t: u64| now < t + 10_000_000_000).push(now),
        recent.len() <= usize::MAX,
    ensures
        recent.len() < 5 ==> s.noted(now).gap_times == recent && s.noted_actions(now).len() == 0,
        recent.len() >= 5 ==> s.noted(now).gap_times.len() == 0 && s.noted_actions(now) == seq![
            Action::ReportChoppy(recent.len() as usize),
        ],
{
    let kept = |t: u64| now < t + 10_000_000_000;
    let also = |t: u64| crate::router::since(now, t) < crate::router::GAP_SPAN;
    assert(kept =~= also);
    let all = s.gap_times.push(now);
    assert(all.drop_last() =~= s.gap_times);
    reveal(Seq::filter);
    assert(all.filter(also) =~= s.gap_times.filter(also).push(now));
}

/// The two screens share the edge that is configured: motion that leaves the
/// local screen over it comes out on the other screen, at the side that
/// faces it, and back over that side comes home. Nothing else crosses.
pub proof fn crossings(on: Target, edge: Edge, reach: Reach)
    ensures
        crate::geometry::crossing_of(on, edge, reach) == Crossing::ToRemote <==> on is Local && ((
        edge is Right && reach is BeyondRight) || (edge is Left && reach is BeyondLeft)),
        crate::geometry::crossing_of(on, edge, reach) == Crossing::ToLocal <==> on is Remote && ((
        edge is Right && reach is BeyondLeft) || (edge is Left && reach is BeyondRight)),
        crate::geometry::shared_side(Target::Local, Edge::Right) == Side::Right,
        crate::geometry::shared_side(Target::Local, Edge::Left) == Side::Left,
        crate::geometry::shared_side(Target::Remote, Edge::Right) == Side::Left,
        crate::geometry::shared_side(Target::Remote, Edge::Left) == Side::Right,
        crate::geometry::target_after(on, Crossing::Stay) == on,
        crate::geometry::target_after(on, Crossing::ToRemote) == Target::Remote,
        crate::geometry::target_after(on, Crossing::ToLocal) == Target::Local,
{
}

/// A sum of wheel steps that does not fit in 32 bits wraps around, and is
/// right but for a multiple of 2^32.
pub proof fn sums_of_wheel_steps_wrap(s: RouterView, detents: i32)
    ensures
        ({
            let d = s.scrolled(detents).pending_wheel - (s.pending_wheel - detents);
            d == 0 || d == 4294967296 || d == -4294967296
        }),
        s.scrolled(detents) == (RouterView {
            pending_wheel: s.scrolled(detents).pending_wheel,
            ..s
        }),
{
}

/// The usual hotkey is left Control, left Alt and the backslash, by the
/// usages of their keys.
pub proof fn the_usual_hotkey()
    ensures
        crate::hidmap::usage_of(29) == Some(crate::emergency::USAGE_LCTRL as int),
        crate::hidmap::usage_of(56) == Some(crate::emergency::USAGE_LALT as int),
        crate::hidmap::usage_of(43) == Some(crate::emergency::USAGE_BACKSLASH as int),
{
}

/// Captured input reaches the router as it was streamed, the vertical part
/// of the wheel alone. The capture's seats are bound, its end is handed on
/// last, and anything else is passed over.
pub proof fn streamed_events_reach_the_router(code: u32, pressed: bool, x: i32, y: i32)
    ensures
        crate::capture::step_of(EiInput::KeyboardKey(code, pressed)) == EiStep::Forward(
            Captured::Key(code, pressed),
        ),
        crate::capture::step_of(EiInput::Button(code, pressed)) == EiStep::Forward(
            Captured::Button(code, pressed),
        ),
        crate::capture::step_of(EiInput::PointerMotion) == EiStep::Forward(Captured::Motion),
        crate::capture::step_of(EiInput::ScrollDiscrete(x, y)) == EiStep::Forward(
            Captured::ScrollDiscrete(y),
        ),
        crate::capture::step_of(EiInput::ScrollDelta) == EiStep::Forward(Captured::ScrollDelta),
        crate::capture::step_of(EiInput::Frame) == EiStep::Forward(Captured::Frame),
        crate::capture::step_of(EiInput::Disconnected) == EiStep::ForwardLast(
            Captured::Disconnected,
        ),
        crate::capture::step_of(EiInput::SeatAdded) == EiStep::BindSeat,
        crate::capture::step_of(EiInput::Other) == EiStep::Skip,
{
}

} // verus!
