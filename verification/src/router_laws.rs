//! What the router guarantees, whatever happens and in whatever order.

use vstd::prelude::*;

use crate::emergency::Emergency;
use crate::geometry::{Crossing, Target};
use crate::protocol::Message;
use crate::router::{Action, Captured, Decision, Next, RouterView, Stop, Why};

verus! {

/// Anything that the router reacts to.
pub enum Input {
    Wake(bool),
    KeepaliveSent(bool),
    Connected(bool),
    Flushed(bool),
    Sent(bool),
    Activated(u32, (u16, u16)),
    Deactivated,
    Disabled,
    ScreenSaver(bool),
    ZonesChanged,
    Captured(Captured),
    Scrolled(i32),
    Moved(Crossing, Target, (u16, u16)),
}

/// How the router reacts.
pub open spec fn react(s: RouterView, input: Input, now: u64) -> Decision {
    match input {
        Input::Wake(shutdown) => s.wake(shutdown, now),
        Input::KeepaliveSent(ok) => s.keepalive_sent(ok, now),
        Input::Connected(ok) => s.connected(ok, now),
        Input::Flushed(ok) => s.flushed(ok, now),
        Input::Sent(ok) => s.sent(ok, now),
        Input::Activated(id, entry) => s.activated(id, entry, now),
        Input::Deactivated => s.leave_remote(Why::Deactivated, Next::Wake),
        Input::Disabled => s.disabled(),
        Input::ScreenSaver(locked) => s.screen_saver(locked),
        Input::ZonesChanged => s.go_local(Why::ZonesChanged, Next::Stop(Stop::ZonesChanged)),
        Input::Captured(ev) => s.captured(ev, now),
        Input::Scrolled(detents) => Decision {
            state: s.scrolled(detents),
            actions: Seq::empty(),
            next: Next::Wake,
        },
        Input::Moved(crossing, on, pos) => s.moved(crossing, on, pos),
    }
}

/// The router reacting to a list of inputs, each with its time.
pub open spec fn react_all(s: RouterView, inputs: Seq<(Input, u64)>) -> RouterView
    decreases inputs.len(),
{
    if inputs.len() == 0 {
        s
    } else {
        react(react_all(s, inputs.drop_last()), inputs.last().0, inputs.last().1).state
    }
}

/// Whatever happens, input is captured only while there is a bridge to send
/// it to, and no button is taken to be held while local.
pub proof fn input_is_never_routed_into_a_void(s: RouterView, inputs: Seq<(Input, u64)>)
    requires
        s.wf(),
    ensures
        react_all(s, inputs).active is Some ==> react_all(s, inputs).bridge_up,
        react_all(s, inputs).wf(),
    decreases inputs.len(),
{
    if inputs.len() > 0 {
        input_is_never_routed_into_a_void(s, inputs.drop_last());
        lemma_wf_kept(react_all(s, inputs.drop_last()), inputs.last().0, inputs.last().1);
    }
}

proof fn lemma_wf_kept(s: RouterView, input: Input, now: u64)
    requires
        s.wf(),
    ensures
        react(s, input, now).state.wf(),
{
    match input {
        Input::Captured(ev) => lemma_captured_wf(s, ev, now),
        _ => {},
    }
}

proof fn lemma_captured_wf(s: RouterView, ev: Captured, now: u64)
    requires
        s.wf(),
    ensures
        s.captured(ev, now).state.wf(),
{
    match ev {
        Captured::Key(code, pressed) => {
            assert(s.noted(now).wf());
            assert(s.active is Some ==> s.noted(now).key(code, pressed).state.wf());
        },
        _ => {},
    }
}

/// The actions that bring input home hold what they must.
proof fn lemma_local_actions(s: RouterView, why: Why)
    ensures
        s.bridge_up ==> s.local_actions(why).contains(Action::Send(Message::ReleaseAll, false)),
        s.active matches Some(id) ==> s.local_actions(why).contains(Action::ReleaseCapture(id)),
        s.local_actions(why).contains(Action::AnnounceLocal(why)),
        s.local_actions(why).contains(Action::ForceLocal),
        forall|a: Action| #[trigger]
            s.local_actions(why).contains(a) ==> (a is Send ==> s.bridge_up && a == Action::Send(
                Message::ReleaseAll,
                false,
            )),
{
    let l = s.local_actions(why);
    let n: int = if s.bridge_up {
        1
    } else {
        0
    };
    if s.bridge_up {
        assert(l[0] == Action::Send(Message::ReleaseAll, false));
    }
    assert(l[n] == Action::ForceLocal);
    if s.active is Some {
        assert(l[n + 1] == Action::ReleaseCapture(s.active->0));
    }
    assert(l[l.len() - 1] == Action::AnnounceLocal(why));
}

proof fn lemma_contains_concat(a: Seq<Action>, b: Seq<Action>)
    ensures
        forall|x: Action| #[trigger] (a + b).contains(x) <==> a.contains(x) || b.contains(x),
{
    assert forall|x: Action| #[trigger] (a + b).contains(x) <==> a.contains(x) || b.contains(
        x,
    ) by {
        if a.contains(x) {
            let i = a.index_of(x);
            assert((a + b)[i] == x);
        }
        if b.contains(x) {
            let i = b.index_of(x);
            assert((a + b)[a.len() + i] == x);
        }
    }
}

/// Whether the clipboard agent is told that input is local again.
pub open spec fn announces_local(actions: Seq<Action>) -> bool {
    exists|i: int| 0 <= i < actions.len() && (#[trigger] actions[i]) is AnnounceLocal
}

proof fn lemma_announces(actions: Seq<Action>, why: Why)
    requires
        actions.contains(Action::AnnounceLocal(why)),
    ensures
        announces_local(actions),
{
    let i = actions.index_of(Action::AnnounceLocal(why));
    assert(actions[i] is AnnounceLocal);
}

/// Every return of input to the local machine gives the capture back, puts
/// the cursor model home, says so, and releases everything on the other
/// side unless the bridge is gone.
pub proof fn every_return_releases(s: RouterView, input: Input, now: u64)
    requires
        s.wf(),
        s.active is Some,
        react(s, input, now).state.active is None,
    ensures
        ({
            let d = react(s, input, now);
            &&& d.state.buttons == 0
            &&& d.actions.contains(Action::ReleaseCapture(s.active->0))
            &&& d.actions.contains(Action::ForceLocal)
            &&& d.state.bridge_up ==> d.actions.contains(
                Action::Send(Message::ReleaseAll, false),
            )
            &&& announces_local(d.actions)
        }),
{
    let d = react(s, input, now);
    match input {
        Input::Wake(shutdown) => if shutdown {
            lemma_local_actions(s, Why::Shutdown);
            lemma_announces(d.actions, Why::Shutdown);
        } else {
            lemma_local_actions(s, Why::Failsafe);
            lemma_contains_concat(
                s.local_actions(Why::Failsafe),
                s.local().without_pending().flush(now).actions,
            );
            lemma_announces(d.actions, Why::Failsafe);
        },
        Input::KeepaliveSent(ok) => if ok {
            let s2 = RouterView { last_send: now, ..s };
            lemma_local_actions(s2, Why::Failsafe);
            lemma_contains_concat(
                s2.local_actions(Why::Failsafe),
                s2.local().without_pending().flush(now).actions,
            );
            lemma_announces(d.actions, Why::Failsafe);
        } else {
            let s2 = RouterView { bridge_up: false, ..s };
            lemma_local_actions(s2, Why::BridgeLost);
            lemma_contains_concat(
                s2.local_actions(Why::BridgeLost),
                s2.local().after_keepalive(now).actions,
            );
            lemma_announces(d.actions, Why::BridgeLost);
        },
        Input::Connected(ok) => {
            let s2 = if ok {
                RouterView { bridge_up: true, last_send: now, ..s }
            } else {
                s
            };
            lemma_local_actions(s2, Why::Failsafe);
            lemma_contains_concat(
                s2.local_actions(Why::Failsafe),
                s2.local().without_pending().flush(now).actions,
            );
            lemma_contains_concat(
                seq![Action::Send(Message::ReleaseAll, false)],
                s2.after_connect(now).actions,
            );
            lemma_announces(d.actions, Why::Failsafe);
        },
        Input::Deactivated => {
            lemma_local_actions(s, Why::Deactivated);
            lemma_announces(d.actions, Why::Deactivated);
        },
        Input::Disabled => {
            lemma_local_actions(s, Why::Disabled);
            lemma_contains_concat(
                s.local_actions(Why::Disabled),
                seq![Action::Pause(crate::router::REARM_PAUSE), Action::EnableCapture],
            );
            lemma_announces(d.actions, Why::Disabled);
        },
        Input::ScreenSaver(_) => {
            lemma_local_actions(s, Why::ScreenLocked);
            lemma_announces(d.actions, Why::ScreenLocked);
        },
        Input::ZonesChanged => {
            lemma_local_actions(s, Why::ZonesChanged);
            lemma_announces(d.actions, Why::ZonesChanged);
        },
        Input::Captured(ev) => {
            let s2 = s.noted(now);
            lemma_contains_concat(
                s.noted_actions(now),
                s2.captured_while_remote(ev, now).actions,
            );
            match ev {
                Captured::Key(code, pressed) => {
                    let s3 = RouterView { emergency: Emergency::idle(s2.emergency.combo), ..s2 };
                    lemma_local_actions(s3, Why::EmergencyHotkey);
                    lemma_announces(d.actions, Why::EmergencyHotkey);
                },
                Captured::Disconnected => {
                    lemma_local_actions(s2, Why::CaptureDisconnected);
                    lemma_announces(d.actions, Why::CaptureDisconnected);
                },
                _ => {},
            }
        },
        Input::Moved(_, _, _) => {
            lemma_local_actions(s, Why::CrossedBack);
            lemma_announces(d.actions, Why::CrossedBack);
        },
        _ => {},
    }
}

/// Whether a message carries the user's input.
pub open spec fn carries_input(m: Message) -> bool {
    m is KeyDown || m is KeyUp || m is KeyState || m is PointerAbs || m is PointerButton
        || m is PointerWheel
}

proof fn lemma_flush_sends(s: RouterView, now: u64)
    ensures
        forall|a: Action| #[trigger]
            s.flush(now).actions.contains(a) ==> a is Send && s.bridge_up && s.has_pending(),
{
}

/// The user's input goes to the bridge only while it is captured, and
/// nothing is sent to a bridge that is not there.
pub proof fn input_is_sent_only_while_remote(
    s: RouterView,
    input: Input,
    now: u64,
    m: Message,
    counts: bool,
)
    requires
        s.wf(),
        react(s, input, now).actions.contains(Action::Send(m, counts)),
    ensures
        react(s, input, now).state.bridge_up,
        carries_input(m) ==> s.active is Some || input is Activated,
{
    let a = Action::Send(m, counts);
    let first = seq![Action::Send(Message::ReleaseAll, false)];
    match input {
        Input::Wake(shutdown) => {
            lemma_local_actions(s, Why::Shutdown);
            lemma_after_connect_sends(s, now);
        },
        Input::KeepaliveSent(ok) => {
            if ok {
                lemma_after_connect_sends(RouterView { last_send: now, ..s }, now);
            } else {
                let lost = RouterView { bridge_up: false, ..s };
                let home = lost.leave_remote(Why::BridgeLost, Next::Wake);
                lemma_local_actions(lost, Why::BridgeLost);
                lemma_after_connect_sends(home.state, now);
                lemma_contains_concat(home.actions, home.state.after_keepalive(now).actions);
            }
        },
        Input::Connected(ok) => {
            let s2 = if ok {
                RouterView { bridge_up: true, last_send: now, ..s }
            } else {
                s
            };
            lemma_after_connect_sends(s2, now);
            lemma_contains_concat(first, s2.after_connect(now).actions);
            assert(first.contains(a) ==> a == first[0]);
        },
        Input::Activated(id, _) => {
            lemma_local_actions(RouterView { active: Some(id), ..s }, Why::NoBridge);
        },
        Input::Deactivated => lemma_local_actions(s, Why::Deactivated),
        Input::Disabled => {
            lemma_local_actions(s, Why::Disabled);
            lemma_contains_concat(
                s.leave_remote(Why::Disabled, Next::Wake).actions,
                seq![Action::Pause(crate::router::REARM_PAUSE), Action::EnableCapture],
            );
        },
        Input::ScreenSaver(_) => lemma_local_actions(s, Why::ScreenLocked),
        Input::ZonesChanged => lemma_local_actions(s, Why::ZonesChanged),
        Input::Moved(_, _, _) => lemma_local_actions(s, Why::CrossedBack),
        _ => {},
    }
}

proof fn lemma_after_connect_sends(s: RouterView, now: u64)
    ensures
        forall|m: Message, counts: bool| #[trigger]
            s.after_connect(now).actions.contains(Action::Send(m, counts))
                ==> s.after_connect(now).state.bridge_up && (carries_input(m) ==> s.active is Some),
{
    let home = s.local().without_pending();
    lemma_local_actions(s, Why::Failsafe);
    lemma_contains_concat(s.local_actions(Why::Failsafe), home.flush(now).actions);
    lemma_flush_sends(home, now);
    lemma_flush_sends(s.without_pending(), now);
    lemma_flush_sends(s, now);
}

/// Wherever input is, pressing the last key of the emergency combo brings it
/// home, and that key does not reach the other machine.
pub proof fn emergency_hotkey_brings_input_home(s: RouterView, code: u32, usage: int, now: u64)
    requires
        s.active is Some,
        crate::hidmap::usage_of(code as int % 0x1_0000) == Some(usage),
        s.emergency.after(usage as u8, true).complete(),
    ensures
        ({
            let d = react(s, Input::Captured(Captured::Key(code, true)), now);
            &&& d.state.active is None
            &&& d.state.emergency == Emergency::idle(s.emergency.combo)
            &&& d.actions == s.noted_actions(now) + s.local_actions(Why::EmergencyHotkey)
        }),
{
}

/// A shutdown request brings input home and stops the router, whatever it
/// was doing.
pub proof fn shutdown_cleans_up(s: RouterView, now: u64)
    ensures
        ({
            let d = react(s, Input::Wake(true), now);
            &&& d.state.active is None
            &&& d.next == Next::Stop(Stop::Shutdown)
            &&& d.actions == s.local_actions(Why::Shutdown)
        }),
{
}

/// The compositor taking the capture back or disabling it, a screen lock and
/// a change of displays bring input home.
pub proof fn compositor_and_lock_bring_input_home(s: RouterView, now: u64)
    ensures
        react(s, Input::Deactivated, now).state.active is None,
        react(s, Input::Disabled, now).state.active is None,
        react(s, Input::ScreenSaver(true), now).state.active is None,
        react(s, Input::ZonesChanged, now).state.active is None,
        react(s, Input::Captured(Captured::Disconnected), now).state.active is None,
{
}

/// A connection that has been quiet for longer than a second is kept alive,
/// unless the router stops: a wake asks for a KEEPALIVE.
pub proof fn quiet_bridge_is_kept_alive(s: RouterView, now: u64)
    requires
        s.bridge_up,
        crate::router::since(now, s.last_send) > crate::router::KEEPALIVE_AFTER,
    ensures
        react(s, Input::Wake(false), now).next == Next::Keepalive,
        react(s, Input::Wake(false), now).state == s,
{
}

/// Wheel steps add up until they are sent, and the newest position stands
/// for all that came before it.
pub proof fn pending_input_coalesces(
    s: RouterView,
    a: i32,
    b: i32,
    older: (u16, u16),
    newer: (u16, u16),
)
    requires
        i32::MIN <= s.pending_wheel - a <= i32::MAX,
        i32::MIN <= s.pending_wheel - a - b <= i32::MAX,
    ensures
        s.scrolled(a).scrolled(b).pending_wheel == s.pending_wheel - a - b,
        s.moved(Crossing::Stay, Target::Remote, older).state.moved(
            Crossing::Stay,
            Target::Remote,
            newer,
        ).state == s.moved(Crossing::Stay, Target::Remote, newer).state,
{
}

/// Losing the bridge while remote brings input home at once.
pub proof fn lost_bridge_brings_input_home(s: RouterView, now: u64)
    ensures
        !react(s, Input::KeepaliveSent(false), now).state.bridge_up,
        react(s, Input::KeepaliveSent(false), now).state.active is None,
{
}

/// Without a bridge a capture is refused: it is given back in the same turn,
/// and the other machine is told nothing.
pub proof fn capture_without_bridge_is_refused(
    s: RouterView,
    id: u32,
    entry: (u16, u16),
    now: u64,
)
    requires
        !s.bridge_up,
    ensures
        ({
            let d = react(s, Input::Activated(id, entry), now);
            &&& d.state.active is None
            &&& d.actions == seq![
                Action::ForceLocal,
                Action::ReleaseCapture(id),
                Action::AnnounceLocal(Why::NoBridge),
            ]
        }),
{
    let s2 = RouterView { active: Some(id), ..s };
    assert(s2.local_actions(Why::NoBridge) =~= seq![
        Action::ForceLocal,
        Action::ReleaseCapture(id),
        Action::AnnounceLocal(Why::NoBridge),
    ]);
}

/// A capture that brings no events for longer than the failsafe allows is
/// given back before the next wait, also when the router sees to a
/// keepalive or a lost bridge on the way there; nothing else comes first.
pub proof fn silent_capture_is_given_back(s: RouterView, input: Input, now: u64)
    requires
        s.failsafe_due(now),
        input == Input::Wake(false) || input is KeepaliveSent || input is Connected,
    ensures
        react(s, input, now).next is Wait ==> react(s, input, now).state.active is None,
        react(s, input, now).next is Wait || react(s, input, now).next is Keepalive || react(
            s,
            input,
            now,
        ).next is Connect,
{
}

/// A click lands at the newest position: a position that was waiting is sent
/// right before it, and the button state sent is the whole state.
pub proof fn clicks_land_at_the_newest_position(
    s: RouterView,
    bit: u8,
    pressed: bool,
    now: u64,
    pos: (u16, u16),
)
    requires
        s.bridge_up,
        s.pending_pos == Some(pos),
    ensures
        s.button(bit, pressed, now).actions == seq![
            Action::Send(Message::PointerAbs(pos.0, pos.1), false),
            Action::Send(
                Message::PointerButton(s.button(bit, pressed, now).state.buttons),
                true,
            ),
        ],
        s.button(bit, pressed, now).state.pending_pos is None,
{
    assert(s.button(bit, pressed, now).actions =~= seq![
        Action::Send(Message::PointerAbs(pos.0, pos.1), false),
        Action::Send(Message::PointerButton(s.button(bit, pressed, now).state.buttons), true),
    ]);
}

/// Positions and wheel steps go out no more often than the interval allows,
/// and what is left to wait for is never longer than that.
pub proof fn pointer_sends_are_throttled(s: RouterView, now: u64)
    ensures
        crate::router::since(now, s.last_ptr_send) < crate::router::POINTER_SEND_INTERVAL
            ==> s.flush(now).actions.len() == 0,
        s.flush(now).state.has_pending() ==> s.flush(now).next == Next::Wait(
            crate::router::POINTER_SEND_INTERVAL,
        ),
        s.flushed(true, now).state.last_ptr_send == now,
{
}

} // verus!
