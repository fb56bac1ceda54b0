//! Router core: merges portal control signals and captured input, and
//! decides what to tell the bridge, the portal and the clipboard agent.
//!
//! Safety invariants:
//! - every transition to local sends RELEASE_ALL to the bridge;
//! - a dead bridge connection while remote => immediately release capture
//!   so input is never routed into a void;
//! - emergency hotkey (LCtrl+LAlt+Backslash by default) forces return to
//!   local;
//! - a shutdown request cleans up both sides.
//!
//! Times are nanoseconds on a monotonic clock.

use vstd::prelude::*;

use crate::emergency::{Combo, Emergency};
use crate::geometry::{Crossing, Target};
use crate::hidmap::{button_to_bit, keycode_to_usage};
use crate::protocol::Message;

verus! {

/// Send a keepalive after this long without a send that went through.
pub const KEEPALIVE_AFTER: u64 = 1_000_000_000;

/// Try to reach a lost bridge this often.
pub const RECONNECT_AFTER: u64 = 2_000_000_000;

/// Give input back if a capture brings no events for this long.
pub const FAILSAFE_AFTER: u64 = 3_000_000_000;

/// Positions are coalesced: only the latest matters (absolute protocol),
/// sent at most this often so the USB endpoint on the Pi never builds a
/// backlog ("ice skating" lag). Wheel detents coalesce on the same cadence:
/// a hi-res wheel can emit hundreds of events/sec, and a per-event HID
/// report starves motion.
pub const POINTER_SEND_INTERVAL: u64 = 4_000_000;

/// How long to wait for an event when nothing is to be sent.
pub const IDLE_WAIT: u64 = 300_000_000;

/// A gap between captured events counts as choppy between these.
pub const GAP_MIN: u64 = 100_000_000;

pub const GAP_MAX: u64 = 500_000_000;

/// Gaps are counted over this long, and reported from this many on.
pub const GAP_SPAN: u64 = 10_000_000_000;

pub const GAP_COUNT: usize = 5;

/// How long to pause before re-enabling a capture that was disabled.
pub const REARM_PAUSE: u64 = 500_000_000;

/// Why input went back to the local machine.
#[derive(Debug, Clone, Copy, PartialEq, Eq, Structural)]
pub enum Why {
    Shutdown,
    BridgeLost,
    /// Capture active but no events arriving.
    Failsafe,
    /// No bridge: the capture was refused.
    NoBridge,
    Deactivated,
    Disabled,
    ScreenLocked,
    ZonesChanged,
    EmergencyHotkey,
    CrossedBack,
    CaptureDisconnected,
}

/// Something to do, in order.
pub enum Action {
    /// Send to the bridge. Whether it went through matters only when the
    /// flag is set.
    Send(Message, bool),
    /// Put the cursor model back on the local screen.
    ForceLocal,
    /// Return this activation to the compositor, with the cursor where the
    /// model has it.
    ReleaseCapture(u32),
    /// Tell the clipboard agent that input is local again, and why.
    AnnounceLocal(Why),
    /// Forget accumulated motion, and put the cursor model on the remote
    /// screen where the compositor reported the crossing.
    EnterRemote,
    /// Tell the clipboard agent that input is remote.
    AnnounceRemote,
    /// Wait this long.
    Pause(u64),
    /// Disarm the barriers; failing is fine.
    DisableCapture,
    /// Place the barriers; failing ends the router.
    ArmBarriers,
    /// Enable the capture; failing ends the router.
    EnableCapture,
    /// Say that captured input arrives in bursts: this many gaps.
    ReportChoppy(usize),
}

/// Why the router stops.
#[derive(Debug, Clone, Copy, PartialEq, Eq, Structural)]
pub enum Stop {
    Shutdown,
    ZonesChanged,
    CaptureDisconnected,
}

/// What comes after the actions.
#[derive(Debug, Clone, Copy, PartialEq, Eq, Structural)]
pub enum Next {
    /// Wake again.
    Wake,
    /// Send KEEPALIVE, then say how it went (`keepalive_sent`).
    Keepalive,
    /// Connect to the bridge, then say how it went (`connected`).
    Connect,
    /// Say whether every send that matters went through (`flushed`).
    Flushed,
    /// Say whether the send that matters went through (`sent`).
    Sent,
    /// Add the event's motion to what has accumulated, then wake.
    AddMotion,
    /// Turn the event's scroll distance into detents (`scrolled`).
    AddScroll,
    /// Apply accumulated motion to the cursor model (`moved`); wake if there
    /// is none.
    Move,
    /// Wait this long for an event; wake if none comes.
    Wait(u64),
    Stop(Stop),
}

/// What to do after a decision.
pub struct Turn {
    pub actions: Vec<Action>,
    pub next: Next,
}

/// Captured input. Motion and scroll distances stay with the caller.
#[derive(Debug, Clone, Copy, PartialEq, Eq, Structural)]
pub enum Captured {
    /// Keycode, pressed.
    Key(u32, bool),
    /// Button code, pressed.
    Button(u32, bool),
    Motion,
    /// Vertical wheel, in 120ths per detent; positive = scroll down.
    ScrollDiscrete(i32),
    ScrollDelta,
    Frame,
    Disconnected,
}

/// Everything the router knows, but for the cursor model.
pub struct Router {
    bridge_up: bool,
    active: Option<u32>,
    activated_at: u64,
    events_this_activation: bool,
    last_capture_event: u64,
    gap_times: Vec<u64>,
    emergency: Emergency,
    pending_pos: Option<(u16, u16)>,
    pending_wheel: i32,
    buttons: u8,
    last_send: u64,
    last_ptr_send: u64,
    last_reconnect: u64,
}

/// Everything the router knows.
#[verifier::ext_equal]
pub struct RouterView {
    /// Whether there is a connection to the bridge.
    pub bridge_up: bool,
    /// The activation under which input is captured; input is remote while
    /// there is one.
    pub active: Option<u32>,
    pub activated_at: u64,
    pub events_this_activation: bool,
    pub last_capture_event: u64,
    pub gap_times: Seq<u64>,
    pub emergency: Emergency,
    pub pending_pos: Option<(u16, u16)>,
    pub pending_wheel: i32,
    pub buttons: u8,
    pub last_send: u64,
    pub last_ptr_send: u64,
    pub last_reconnect: u64,
}

impl View for Router {
    type V = RouterView;

    closed spec fn view(&self) -> RouterView {
        RouterView {
            bridge_up: self.bridge_up,
            active: self.active,
            activated_at: self.activated_at,
            events_this_activation: self.events_this_activation,
            last_capture_event: self.last_capture_event,
            gap_times: self.gap_times@,
            emergency: self.emergency,
            pending_pos: self.pending_pos,
            pending_wheel: self.pending_wheel,
            buttons: self.buttons,
            last_send: self.last_send,
            last_ptr_send: self.last_ptr_send,
            last_reconnect: self.last_reconnect,
        }
    }
}

/// A decision: the state it leaves, and what to do.
#[verifier::ext_equal]
pub struct Decision {
    pub state: RouterView,
    pub actions: Seq<Action>,
    pub next: Next,
}

impl Decision {
    /// The same decision, with other actions first.
    pub open spec fn after(self, first: Seq<Action>) -> Decision {
        Decision { actions: first + self.actions, ..self }
    }
}

/// How long ago a moment was.
pub open spec fn since(now: u64, t: u64) -> int {
    if now >= t {
        now - t
    } else {
        0
    }
}

/// Whole detents in a discrete scroll. The EI protocol counts 120ths per
/// detent, but compositors that count detents are tolerated.
pub open spec fn detents_of(y: i32) -> int {
    if y >= 120 {
        y as int / 120
    } else if i32::MIN < y <= -120 {
        -(-(y as int) / 120)
    } else {
        y as int
    }
}

/// What fits in the wheel byte of a message.
pub open spec fn clamp_wheel(n: i32) -> i8 {
    if n < -127 {
        (-127int) as i8
    } else if n > 127 {
        127i8
    } else {
        n as i8
    }
}

/// A 32-bit sum that wraps around.
pub open spec fn wrap_i32(n: int) -> i32 {
    if n > i32::MAX {
        (n - 0x1_0000_0000) as i32
    } else if n < i32::MIN {
        (n + 0x1_0000_0000) as i32
    } else {
        n as i32
    }
}

impl RouterView {
    /// Input is never routed into a void, and no button is held while local.
    pub open spec fn wf(self) -> bool {
        &&& !self.bridge_up ==> self.active is None
        &&& self.active is None ==> self.buttons == 0
    }

    /// Whether a position or wheel steps wait to be sent.
    pub open spec fn has_pending(self) -> bool {
        self.pending_pos is Some || self.pending_wheel != 0
    }

    pub open spec fn without_pending(self) -> RouterView {
        RouterView { pending_pos: None, pending_wheel: 0, ..self }
    }

    /// How long to wait for the next event.
    pub open spec fn wait(self) -> Next {
        Next::Wait(
            if self.has_pending() {
                POINTER_SEND_INTERVAL
            } else {
                IDLE_WAIT
            },
        )
    }

    /// Input back on the local machine.
    pub open spec fn local(self) -> RouterView {
        RouterView { active: None, buttons: 0, ..self }
    }

    /// What brings input back to the local machine: release everything on
    /// the other side (if it can be reached), give the capture back, and
    /// say so.
    pub open spec fn local_actions(self, why: Why) -> Seq<Action> {
        let release_all = if self.bridge_up {
            seq![Action::Send(Message::ReleaseAll, false)]
        } else {
            Seq::empty()
        };
        let release_capture = match self.active {
            Some(id) => seq![Action::ReleaseCapture(id)],
            None => Seq::empty(),
        };
        release_all + seq![Action::ForceLocal] + release_capture + seq![Action::AnnounceLocal(why)]
    }

    pub open spec fn go_local(self, why: Why, next: Next) -> Decision {
        Decision { state: self.local(), actions: self.local_actions(why), next }
    }

    /// Go local if input is remote; otherwise nothing changes.
    pub open spec fn leave_remote(self, why: Why, next: Next) -> Decision {
        if self.active is Some {
            self.go_local(why, next)
        } else {
            Decision { state: self, actions: Seq::empty(), next }
        }
    }

    /// The messages that carry what is pending: the position, then the
    /// wheel.
    pub open spec fn pending_sends(self) -> Seq<Action> {
        let pos = match self.pending_pos {
            Some((x, y)) => seq![Action::Send(Message::PointerAbs(x, y), true)],
            None => Seq::empty(),
        };
        let wheel = if self.pending_wheel != 0 {
            seq![
                Action::Send(Message::PointerWheel(clamp_wheel(self.pending_wheel)), true),
            ]
        } else {
            Seq::empty()
        };
        pos + wheel
    }

    /// Send what is pending once the interval is over, then wait.
    pub open spec fn flush(self, now: u64) -> Decision {
        if self.has_pending() && since(now, self.last_ptr_send) >= POINTER_SEND_INTERVAL {
            if self.bridge_up {
                Decision {
                    state: self.without_pending(),
                    actions: self.pending_sends(),
                    next: Next::Flushed,
                }
            } else {
                let s = RouterView { last_ptr_send: now, ..self.without_pending() };
                Decision { state: s, actions: Seq::empty(), next: s.wait() }
            }
        } else {
            Decision { state: self, actions: Seq::empty(), next: self.wait() }
        }
    }

    /// Whether a capture is active that has brought nothing for too long.
    pub open spec fn failsafe_due(self, now: u64) -> bool {
        self.active is Some && !self.events_this_activation && since(now, self.activated_at)
            > FAILSAFE_AFTER
    }

    /// With the bridge seen to: the failsafe, then what is pending, which
    /// is only meaningful while remote.
    pub open spec fn after_connect(self, now: u64) -> Decision {
        if self.failsafe_due(now) {
            self.local().without_pending().flush(now).after(self.local_actions(Why::Failsafe))
        } else if self.active is None {
            self.without_pending().flush(now)
        } else {
            self.flush(now)
        }
    }

    /// With the keepalive seen to: look for a lost bridge.
    pub open spec fn after_keepalive(self, now: u64) -> Decision {
        if !self.bridge_up && since(now, self.last_reconnect) > RECONNECT_AFTER {
            Decision {
                state: RouterView { last_reconnect: now, ..self },
                actions: Seq::empty(),
                next: Next::Connect,
            }
        } else {
            self.after_connect(now)
        }
    }

    pub open spec fn wake(self, shutdown: bool, now: u64) -> Decision {
        if shutdown {
            self.go_local(Why::Shutdown, Next::Stop(Stop::Shutdown))
        } else if self.bridge_up && since(now, self.last_send) > KEEPALIVE_AFTER {
            Decision { state: self, actions: Seq::empty(), next: Next::Keepalive }
        } else {
            self.after_keepalive(now)
        }
    }

    pub open spec fn keepalive_sent(self, ok: bool, now: u64) -> Decision {
        if ok {
            (RouterView { last_send: now, ..self }).after_keepalive(now)
        } else {
            let lost = (RouterView { bridge_up: false, ..self }).leave_remote(
                Why::BridgeLost,
                Next::Wake,
            );
            lost.state.after_keepalive(now).after(lost.actions)
        }
    }

    pub open spec fn connected(self, ok: bool, now: u64) -> Decision {
        if ok {
            (RouterView { bridge_up: true, last_send: now, ..self }).after_connect(now).after(
                seq![Action::Send(Message::ReleaseAll, false)],
            )
        } else {
            self.after_connect(now)
        }
    }

    pub open spec fn flushed(self, ok: bool, now: u64) -> Decision {
        let s = RouterView {
            last_ptr_send: now,
            last_send: if ok {
                now
            } else {
                self.last_send
            },
            ..self
        };
        Decision { state: s, actions: Seq::empty(), next: s.wait() }
    }

    pub open spec fn sent(self, ok: bool, now: u64) -> Decision {
        let s = if ok {
            RouterView { last_send: now, ..self }
        } else {
            self
        };
        Decision { state: s, actions: Seq::empty(), next: Next::Wake }
    }

    /// The compositor captured input: go remote, or refuse without a bridge.
    pub open spec fn activated(self, id: u32, entry: (u16, u16), now: u64) -> Decision {
        let s = RouterView { active: Some(id), ..self };
        if !self.bridge_up {
            s.go_local(Why::NoBridge, Next::Wake)
        } else {
            Decision {
                state: RouterView {
                    activated_at: now,
                    events_this_activation: false,
                    emergency: Emergency::idle(s.emergency.combo),
                    last_send: now,
                    ..s.without_pending()
                },
                actions: seq![
                    Action::EnterRemote,
                    Action::Send(Message::PointerAbs(entry.0, entry.1), false),
                    Action::AnnounceRemote,
                ],
                next: Next::Wake,
            }
        }
    }

    /// The gaps that count after an event.
    pub open spec fn gaps_after(self, now: u64) -> Seq<u64> {
        let gap = since(now, self.last_capture_event);
        if self.events_this_activation && GAP_MIN < gap < GAP_MAX {
            self.gap_times.push(now).filter(|t: u64| since(now, t) < GAP_SPAN)
        } else {
            self.gap_times
        }
    }

    /// Whether an event completes a cluster of gaps. An idle user produces
    /// one long gap, which is normal; a choppy stall produces a cluster of
    /// short gaps while motion continues.
    pub open spec fn is_choppy(self, now: u64) -> bool {
        let gap = since(now, self.last_capture_event);
        self.events_this_activation && GAP_MIN < gap < GAP_MAX && self.gaps_after(now).len()
            >= GAP_COUNT
    }

    /// The state with a captured event taken note of.
    pub open spec fn noted(self, now: u64) -> RouterView {
        RouterView {
            gap_times: if self.is_choppy(now) {
                Seq::empty()
            } else {
                self.gaps_after(now)
            },
            last_capture_event: now,
            events_this_activation: true,
            ..self
        }
    }

    /// What taking note of a captured event calls for.
    pub open spec fn noted_actions(self, now: u64) -> Seq<Action> {
        if self.is_choppy(now) {
            seq![Action::ReportChoppy(self.gaps_after(now).len() as usize)]
        } else {
            Seq::empty()
        }
    }

    /// A key, as the other machine is to see it.
    pub open spec fn key(self, code: u32, pressed: bool) -> Decision {
        match crate::hidmap::usage_of(code as int % 0x1_0000) {
            None => Decision { state: self, actions: Seq::empty(), next: Next::Wake },
            Some(usage) => {
                let s = RouterView {
                    emergency: self.emergency.after(usage as u8, pressed),
                    ..self
                };
                if s.emergency.complete() {
                    (RouterView { emergency: Emergency::idle(s.emergency.combo), ..s }).go_local(
                        Why::EmergencyHotkey,
                        Next::Wake,
                    )
                } else if self.bridge_up {
                    let m = if pressed {
                        Message::KeyDown(usage as u8)
                    } else {
                        Message::KeyUp(usage as u8)
                    };
                    Decision { state: s, actions: seq![Action::Send(m, true)], next: Next::Sent }
                } else {
                    Decision { state: s, actions: Seq::empty(), next: Next::Wake }
                }
            },
        }
    }

    /// A button: clicks must land at the newest position, so a pending one
    /// goes first.
    pub open spec fn button(self, bit: u8, pressed: bool, now: u64) -> Decision {
        let buttons = if pressed {
            self.buttons | bit
        } else {
            self.buttons & !bit
        };
        let s = RouterView { buttons, ..self };
        if !self.bridge_up {
            Decision { state: s, actions: Seq::empty(), next: Next::Wake }
        } else {
            let click = seq![Action::Send(Message::PointerButton(buttons), true)];
            match self.pending_pos {
                Some((x, y)) => Decision {
                    state: RouterView { pending_pos: None, last_ptr_send: now, ..s },
                    actions: seq![Action::Send(Message::PointerAbs(x, y), false)] + click,
                    next: Next::Sent,
                },
                None => Decision { state: s, actions: click, next: Next::Sent },
            }
        }
    }

    /// Detents turned: toward the user is down to EI, and negative to HID.
    pub open spec fn scrolled(self, detents: i32) -> RouterView {
        RouterView { pending_wheel: wrap_i32(self.pending_wheel - detents), ..self }
    }

    /// One captured event while remote.
    pub open spec fn captured_while_remote(self, ev: Captured, now: u64) -> Decision {
        match ev {
            Captured::Key(code, pressed) => self.key(code, pressed),
            Captured::Button(code, pressed) => {
                let c = code as int % 0x1_0000;
                if c == 0x110 {
                    self.button(0x01, pressed, now)
                } else if c == 0x111 {
                    self.button(0x02, pressed, now)
                } else if c == 0x112 {
                    self.button(0x04, pressed, now)
                } else {
                    Decision { state: self, actions: Seq::empty(), next: Next::Wake }
                }
            },
            Captured::Motion => Decision {
                state: self,
                actions: Seq::empty(),
                next: Next::AddMotion,
            },
            Captured::ScrollDiscrete(y) => Decision {
                state: self.scrolled(detents_of(y) as i32),
                actions: Seq::empty(),
                next: Next::Wake,
            },
            Captured::ScrollDelta => Decision {
                state: self,
                actions: Seq::empty(),
                next: Next::AddScroll,
            },
            Captured::Frame => Decision { state: self, actions: Seq::empty(), next: Next::Move },
            Captured::Disconnected => self.go_local(
                Why::CaptureDisconnected,
                Next::Stop(Stop::CaptureDisconnected),
            ),
        }
    }

    /// One captured event; stray ones while local are ignored.
    pub open spec fn captured(self, ev: Captured, now: u64) -> Decision {
        if self.active is None {
            Decision { state: self, actions: Seq::empty(), next: Next::Wake }
        } else {
            self.noted(now).captured_while_remote(ev, now).after(self.noted_actions(now))
        }
    }

    /// The cursor model moved.
    pub open spec fn moved(self, crossing: Crossing, on: Target, pos: (u16, u16)) -> Decision {
        if crossing == Crossing::ToLocal {
            self.go_local(Why::CrossedBack, Next::Wake)
        } else if on == Target::Remote {
            Decision {
                state: RouterView { pending_pos: Some(pos), ..self },
                actions: Seq::empty(),
                next: Next::Wake,
            }
        } else {
            Decision { state: self, actions: Seq::empty(), next: Next::Wake }
        }
    }

    pub open spec fn disabled(self) -> Decision {
        let d = self.leave_remote(Why::Disabled, Next::Wake);
        Decision {
            actions: d.actions + seq![Action::Pause(REARM_PAUSE), Action::EnableCapture],
            ..d
        }
    }

    pub open spec fn screen_saver(self, locked: bool) -> Decision {
        if locked {
            self.leave_remote(Why::ScreenLocked, Next::Wake)
        } else {
            Decision {
                state: self,
                actions: seq![
                    Action::DisableCapture,
                    Action::ArmBarriers,
                    Action::EnableCapture,
                ],
                next: Next::Wake,
            }
        }
    }
}

fn elapsed(now: u64, t: u64) -> (d: u64)
    ensures
        d == since(now, t),
{
    now.saturating_sub(t)
}

fn whole_detents(y: i32) -> (n: i32)
    ensures
        n == detents_of(y),
{
    if y >= 120 {
        ((y as u32) / 120) as i32
    } else if y <= -120 && y != i32::MIN {
        let n: u32 = ((-y) as u32) / 120;
        -(n as i32)
    } else {
        y
    }
}

fn wheel_byte(n: i32) -> (b: i8)
    ensures
        b == clamp_wheel(n),
{
    if n < -127 {
        -127
    } else if n > 127 {
        127
    } else {
        n as i8
    }
}

/// The moments that are recent enough.
fn recent(times: &Vec<u64>, now: u64) -> (r: Vec<u64>)
    ensures
        r@ == times@.filter(|t: u64| since(now, t) < GAP_SPAN),
{
    let mut r: Vec<u64> = Vec::new();
    let ghost keep = |t: u64| since(now, t) < GAP_SPAN;
    let mut i: usize = 0;
    while i < times.len()
        invariant
            i <= times@.len(),
            r@ == times@.take(i as int).filter(keep),
            keep == (|t: u64| since(now, t) < GAP_SPAN),
        decreases times.len() - i,
    {
        proof {
            reveal(Seq::filter);
            assert(times@.take(i + 1).drop_last() =~= times@.take(i as int));
        }
        if elapsed(now, times[i]) < GAP_SPAN {
            r.push(times[i]);
        }
        i += 1;
    }
    assert(times@.take(i as int) =~= times@);
    r
}

impl Turn {
    /// The turn carries out a decision.
    pub open spec fn is(self, d: Decision) -> bool {
        self.actions@ == d.actions && self.next == d.next
    }
}

impl Router {
    /// Local, with nothing pending, and this hotkey for an emergency return.
    pub fn new(bridge_up: bool, hotkey: Combo, now: u64) -> (r: Router)
        ensures
            r@ == (RouterView {
                bridge_up,
                active: None,
                activated_at: now,
                events_this_activation: false,
                last_capture_event: now,
                gap_times: Seq::empty(),
                emergency: Emergency::idle(hotkey),
                pending_pos: None,
                pending_wheel: 0,
                buttons: 0,
                last_send: now,
                last_ptr_send: now,
                last_reconnect: now,
            }),
            r@.wf(),
    {
        Router {
            bridge_up,
            active: None,
            activated_at: now,
            events_this_activation: false,
            last_capture_event: now,
            gap_times: Vec::new(),
            emergency: Emergency::new(hotkey),
            pending_pos: None,
            pending_wheel: 0,
            buttons: 0,
            last_send: now,
            last_ptr_send: now,
            last_reconnect: now,
        }
    }

    /// Whether input is remote.
    pub fn is_remote(&self) -> (b: bool)
        ensures
            b == (self@.active is Some),
    {
        self.active.is_some()
    }

    fn go_local(&mut self, actions: &mut Vec<Action>, why: Why)
        ensures
            final(self)@ == old(self)@.local(),
            final(actions)@ == old(actions)@ + old(self)@.local_actions(why),
    {
        if self.bridge_up {
            actions.push(Action::Send(Message::ReleaseAll, false));
        }
        self.buttons = 0;
        actions.push(Action::ForceLocal);
        if let Some(id) = self.active.take() {
            actions.push(Action::ReleaseCapture(id));
        }
        actions.push(Action::AnnounceLocal(why));
        assert(actions@ =~= old(actions)@ + old(self)@.local_actions(why));
    }

    fn wait_time(&self) -> (next: Next)
        ensures
            next == self@.wait(),
    {
        if self.pending_pos.is_some() || self.pending_wheel != 0 {
            Next::Wait(POINTER_SEND_INTERVAL)
        } else {
            Next::Wait(IDLE_WAIT)
        }
    }

    fn flush(&mut self, actions: &mut Vec<Action>, now: u64) -> (next: Next)
        ensures
            final(self)@ == old(self)@.flush(now).state,
            final(actions)@ == old(actions)@ + old(self)@.flush(now).actions,
            next == old(self)@.flush(now).next,
    {
        let ghost d = self@.flush(now);
        let has_pending = self.pending_pos.is_some() || self.pending_wheel != 0;
        if has_pending && elapsed(now, self.last_ptr_send) >= POINTER_SEND_INTERVAL {
            let pos = self.pending_pos.take();
            let wheel: i32 = self.pending_wheel;
            self.pending_wheel = 0;
            if self.bridge_up {
                if let Some((x, y)) = pos {
                    actions.push(Action::Send(Message::PointerAbs(x, y), true));
                }
                if wheel != 0 {
                    actions.push(Action::Send(Message::PointerWheel(wheel_byte(wheel)), true));
                }
                assert(actions@ =~= old(actions)@ + d.actions);
                return Next::Flushed;
            }
            self.last_ptr_send = now;
        }
        assert(actions@ =~= old(actions)@ + d.actions);
        self.wait_time()
    }

    fn after_connect(&mut self, actions: &mut Vec<Action>, now: u64) -> (next: Next)
        ensures
            final(self)@ == old(self)@.after_connect(now).state,
            final(actions)@ == old(actions)@ + old(self)@.after_connect(now).actions,
            next == old(self)@.after_connect(now).next,
    {
        let ghost d = self@.after_connect(now);
        if self.active.is_some() && !self.events_this_activation && elapsed(now, self.activated_at)
            > FAILSAFE_AFTER {
            self.go_local(actions, Why::Failsafe);
        }
        if self.active.is_none() {
            self.pending_pos = None;
            self.pending_wheel = 0;
        }
        let next = self.flush(actions, now);
        assert(actions@ =~= old(actions)@ + d.actions);
        next
    }

    fn after_keepalive(&mut self, actions: &mut Vec<Action>, now: u64) -> (next: Next)
        ensures
            final(self)@ == old(self)@.after_keepalive(now).state,
            final(actions)@ == old(actions)@ + old(self)@.after_keepalive(now).actions,
            next == old(self)@.after_keepalive(now).next,
    {
        if !self.bridge_up && elapsed(now, self.last_reconnect) > RECONNECT_AFTER {
            self.last_reconnect = now;
            assert(actions@ =~= old(actions)@ + old(self)@.after_keepalive(now).actions);
            return Next::Connect;
        }
        self.after_connect(actions, now)
    }

    /// The top of the loop: shut down, keep the bridge, send what is
    /// pending, and wait.
    pub fn wake(&mut self, shutdown: bool, now: u64) -> (t: Turn)
        requires
            old(self)@.wf(),
        ensures
            final(self)@ == old(self)@.wake(shutdown, now).state,
            t.is(old(self)@.wake(shutdown, now)),
            final(self)@.wf(),
    {
        let mut actions: Vec<Action> = Vec::new();
        if shutdown {
            self.go_local(&mut actions, Why::Shutdown);
            assert(actions@ =~= old(self)@.local_actions(Why::Shutdown));
            return Turn { actions, next: Next::Stop(Stop::Shutdown) };
        }
        if self.bridge_up && elapsed(now, self.last_send) > KEEPALIVE_AFTER {
            return Turn { actions, next: Next::Keepalive };
        }
        let next = self.after_keepalive(&mut actions, now);
        assert(actions@ =~= old(self)@.after_keepalive(now).actions);
        Turn { actions, next }
    }

    /// How the keepalive went. A bridge that cannot be reached is lost, and
    /// input comes home at once.
    pub fn keepalive_sent(&mut self, ok: bool, now: u64) -> (t: Turn)
        requires
            old(self)@.wf(),
        ensures
            final(self)@ == old(self)@.keepalive_sent(ok, now).state,
            t.is(old(self)@.keepalive_sent(ok, now)),
            final(self)@.wf(),
    {
        let ghost d = self@.keepalive_sent(ok, now);
        let mut actions: Vec<Action> = Vec::new();
        if ok {
            self.last_send = now;
        } else {
            self.bridge_up = false;
            if self.active.is_some() {
                self.go_local(&mut actions, Why::BridgeLost);
            }
        }
        let next = self.after_keepalive(&mut actions, now);
        assert(actions@ =~= d.actions);
        Turn { actions, next }
    }

    /// How connecting to the bridge went. A new connection starts clean.
    pub fn connected(&mut self, ok: bool, now: u64) -> (t: Turn)
        requires
            old(self)@.wf(),
        ensures
            final(self)@ == old(self)@.connected(ok, now).state,
            t.is(old(self)@.connected(ok, now)),
            final(self)@.wf(),
    {
        let ghost d = self@.connected(ok, now);
        let mut actions: Vec<Action> = Vec::new();
        if ok {
            actions.push(Action::Send(Message::ReleaseAll, false));
            self.bridge_up = true;
            self.last_send = now;
        }
        let next = self.after_connect(&mut actions, now);
        assert(actions@ =~= d.actions);
        Turn { actions, next }
    }

    /// Whether all that was pending went through.
    pub fn flushed(&mut self, ok: bool, now: u64) -> (t: Turn)
        requires
            old(self)@.wf(),
        ensures
            final(self)@ == old(self)@.flushed(ok, now).state,
            t.is(old(self)@.flushed(ok, now)),
            final(self)@.wf(),
    {
        if ok {
            self.last_send = now;
        }
        self.last_ptr_send = now;
        Turn { actions: Vec::new(), next: self.wait_time() }
    }

    /// Whether a key or a click went through.
    pub fn sent(&mut self, ok: bool, now: u64) -> (t: Turn)
        requires
            old(self)@.wf(),
        ensures
            final(self)@ == old(self)@.sent(ok, now).state,
            t.is(old(self)@.sent(ok, now)),
            final(self)@.wf(),
    {
        if ok {
            self.last_send = now;
        }
        Turn { actions: Vec::new(), next: Next::Wake }
    }

    /// The compositor captured input. `entry` is where the cursor comes in
    /// on the remote screen.
    pub fn activated(&mut self, id: u32, entry: (u16, u16), now: u64) -> (t: Turn)
        requires
            old(self)@.wf(),
        ensures
            final(self)@ == old(self)@.activated(id, entry, now).state,
            t.is(old(self)@.activated(id, entry, now)),
            final(self)@.wf(),
    {
        let ghost d = self@.activated(id, entry, now);
        let mut actions: Vec<Action> = Vec::new();
        self.active = Some(id);
        if !self.bridge_up {
            // Never capture into a void.
            self.go_local(&mut actions, Why::NoBridge);
            assert(actions@ =~= d.actions);
            return Turn { actions, next: Next::Wake };
        }
        self.activated_at = now;
        self.events_this_activation = false;
        self.emergency.reset();
        self.pending_pos = None;
        self.pending_wheel = 0;
        actions.push(Action::EnterRemote);
        actions.push(Action::Send(Message::PointerAbs(entry.0, entry.1), false));
        self.last_send = now;
        actions.push(Action::AnnounceRemote);
        assert(actions@ =~= d.actions);
        Turn { actions, next: Next::Wake }
    }

    fn leave_remote(&mut self, why: Why) -> (actions: Vec<Action>)
        ensures
            final(self)@ == old(self)@.leave_remote(why, Next::Wake).state,
            actions@ == old(self)@.leave_remote(why, Next::Wake).actions,
    {
        let mut actions: Vec<Action> = Vec::new();
        if self.active.is_some() {
            self.go_local(&mut actions, why);
        }
        assert(actions@ =~= old(self)@.leave_remote(why, Next::Wake).actions);
        actions
    }

    /// The compositor took the capture back.
    pub fn deactivated(&mut self) -> (t: Turn)
        requires
            old(self)@.wf(),
        ensures
            final(self)@ == old(self)@.leave_remote(Why::Deactivated, Next::Wake).state,
            t.is(old(self)@.leave_remote(Why::Deactivated, Next::Wake)),
            final(self)@.wf(),
    {
        Turn { actions: self.leave_remote(Why::Deactivated), next: Next::Wake }
    }

    /// The compositor disabled capturing: re-arm after a pause.
    pub fn disabled(&mut self) -> (t: Turn)
        requires
            old(self)@.wf(),
        ensures
            final(self)@ == old(self)@.disabled().state,
            t.is(old(self)@.disabled()),
            final(self)@.wf(),
    {
        let mut actions = self.leave_remote(Why::Disabled);
        actions.push(Action::Pause(REARM_PAUSE));
        actions.push(Action::EnableCapture);
        assert(actions@ =~= old(self)@.disabled().actions);
        Turn { actions, next: Next::Wake }
    }

    /// The screen was locked or unlocked. A lock kills the barriers without
    /// any portal signal, so an unlock re-arms them.
    pub fn screen_saver(&mut self, locked: bool) -> (t: Turn)
        requires
            old(self)@.wf(),
        ensures
            final(self)@ == old(self)@.screen_saver(locked).state,
            t.is(old(self)@.screen_saver(locked)),
            final(self)@.wf(),
    {
        if locked {
            return Turn { actions: self.leave_remote(Why::ScreenLocked), next: Next::Wake };
        }
        let mut actions: Vec<Action> = Vec::new();
        actions.push(Action::DisableCapture);
        actions.push(Action::ArmBarriers);
        actions.push(Action::EnableCapture);
        assert(actions@ =~= old(self)@.screen_saver(locked).actions);
        Turn { actions, next: Next::Wake }
    }

    /// The displays were reconfigured: stop for a clean restart.
    pub fn zones_changed(&mut self) -> (t: Turn)
        requires
            old(self)@.wf(),
        ensures
            final(self)@ == old(self)@.local(),
            t.is(old(self)@.go_local(Why::ZonesChanged, Next::Stop(Stop::ZonesChanged))),
            final(self)@.wf(),
    {
        let mut actions: Vec<Action> = Vec::new();
        self.go_local(&mut actions, Why::ZonesChanged);
        assert(actions@ =~= old(self)@.local_actions(Why::ZonesChanged));
        Turn { actions, next: Next::Stop(Stop::ZonesChanged) }
    }

    /// Take note of a captured event, and of how long it was in coming.
    fn note_event(&mut self, actions: &mut Vec<Action>, now: u64)
        ensures
            final(self)@ == old(self)@.noted(now),
            final(actions)@ == old(actions)@ + old(self)@.noted_actions(now),
    {
        if self.events_this_activation {
            let gap: u64 = elapsed(now, self.last_capture_event);
            if gap > GAP_MIN && gap < GAP_MAX {
                self.gap_times.push(now);
                let kept = recent(&self.gap_times, now);
                self.gap_times = kept;
                if self.gap_times.len() >= GAP_COUNT {
                    actions.push(Action::ReportChoppy(self.gap_times.len()));
                    self.gap_times = Vec::new();
                }
            }
        }
        self.last_capture_event = now;
        self.events_this_activation = true;
        assert(actions@ =~= old(actions)@ + old(self)@.noted_actions(now));
        assert(self@ =~= old(self)@.noted(now));
    }

    fn key(&mut self, actions: &mut Vec<Action>, code: u32, pressed: bool) -> (next: Next)
        ensures
            final(self)@ == old(self)@.key(code, pressed).state,
            final(actions)@ == old(actions)@ + old(self)@.key(code, pressed).actions,
            next == old(self)@.key(code, pressed).next,
    {
        let ghost d = self@.key(code, pressed);
        let usage: u8 = match keycode_to_usage((code % 0x1_0000) as u16) {
            Some(u) => u,
            None => {
                assert(actions@ =~= old(actions)@ + d.actions);
                return Next::Wake;
            },
        };
        if self.emergency.update(usage, pressed) {
            self.emergency.reset();
            self.go_local(actions, Why::EmergencyHotkey);
            assert(actions@ =~= old(actions)@ + d.actions);
            return Next::Wake;
        }
        if self.bridge_up {
            let m = if pressed {
                Message::KeyDown(usage)
            } else {
                Message::KeyUp(usage)
            };
            actions.push(Action::Send(m, true));
            assert(actions@ =~= old(actions)@ + d.actions);
            return Next::Sent;
        }
        assert(actions@ =~= old(actions)@ + d.actions);
        Next::Wake
    }

    fn button(&mut self, actions: &mut Vec<Action>, bit: u8, pressed: bool, now: u64) -> (next:
        Next)
        ensures
            final(self)@ == old(self)@.button(bit, pressed, now).state,
            final(actions)@ == old(actions)@ + old(self)@.button(bit, pressed, now).actions,
            next == old(self)@.button(bit, pressed, now).next,
    {
        let ghost d = self@.button(bit, pressed, now);
        if pressed {
            self.buttons = self.buttons | bit;
        } else {
            self.buttons = self.buttons & !bit;
        }
        if !self.bridge_up {
            assert(actions@ =~= old(actions)@ + d.actions);
            return Next::Wake;
        }
        if let Some((x, y)) = self.pending_pos.take() {
            actions.push(Action::Send(Message::PointerAbs(x, y), false));
            self.last_ptr_send = now;
        }
        actions.push(Action::Send(Message::PointerButton(self.buttons), true));
        assert(actions@ =~= old(actions)@ + d.actions);
        Next::Sent
    }

    /// One captured event.
    pub fn captured(&mut self, ev: Captured, now: u64) -> (t: Turn)
        requires
            old(self)@.wf(),
        ensures
            final(self)@ == old(self)@.captured(ev, now).state,
            t.is(old(self)@.captured(ev, now)),
            final(self)@.wf(),
    {
        let ghost d = self@.captured(ev, now);
        let mut actions: Vec<Action> = Vec::new();
        if self.active.is_none() {
            // Stray events while local.
            return Turn { actions, next: Next::Wake };
        }
        self.note_event(&mut actions, now);
        let next = match ev {
            Captured::Key(code, pressed) => self.key(&mut actions, code, pressed),
            Captured::Button(code, pressed) => match button_to_bit((code % 0x1_0000) as u16) {
                Some(bit) => self.button(&mut actions, bit, pressed, now),
                None => Next::Wake,
            },
            Captured::Motion => Next::AddMotion,
            Captured::ScrollDiscrete(y) => {
                self.scroll_by(whole_detents(y));
                Next::Wake
            },
            Captured::ScrollDelta => Next::AddScroll,
            Captured::Frame => Next::Move,
            Captured::Disconnected => {
                self.go_local(&mut actions, Why::CaptureDisconnected);
                Next::Stop(Stop::CaptureDisconnected)
            },
        };
        assert(actions@ =~= d.actions);
        Turn { actions, next }
    }

    fn scroll_by(&mut self, detents: i32)
        ensures
            final(self)@ == old(self)@.scrolled(detents),
    {
        self.pending_wheel = self.pending_wheel.wrapping_sub(detents);
    }

    /// Continuous scrolling amounted to this many detents.
    pub fn scrolled(&mut self, detents: i32) -> (t: Turn)
        requires
            old(self)@.wf(),
        ensures
            final(self)@ == old(self)@.scrolled(detents),
            t.actions@ == Seq::<Action>::empty(),
            t.next == Next::Wake,
            final(self)@.wf(),
    {
        self.scroll_by(detents);
        Turn { actions: Vec::new(), next: Next::Wake }
    }

    /// The cursor model moved: whether it crossed, which screen it is on,
    /// and where it is on the remote screen.
    pub fn moved(&mut self, crossing: Crossing, on: Target, pos: (u16, u16)) -> (t: Turn)
        requires
            old(self)@.wf(),
        ensures
            final(self)@ == old(self)@.moved(crossing, on, pos).state,
            t.is(old(self)@.moved(crossing, on, pos)),
            final(self)@.wf(),
    {
        let mut actions: Vec<Action> = Vec::new();
        if crossing == Crossing::ToLocal {
            self.go_local(&mut actions, Why::CrossedBack);
            assert(actions@ =~= old(self)@.local_actions(Why::CrossedBack));
        } else if on == Target::Remote {
            self.pending_pos = Some(pos);
        }
        Turn { actions, next: Next::Wake }
    }
}

} // verus!
