//! The bridge: input commands in, HID reports out.
//!
//! Safety property above all others: on ANY exit from a client session
//! (clean, error, timeout, malformed frame, shutdown signal) all keyboard
//! and button state is released.

use vstd::prelude::*;

use crate::hid::{Hid, HidView, KeyOutcome, WriteNote};
use crate::protocol::{
    decode, hello_ack, Decoded, DecodedView, Message, Said, Status, MSG_HELLO_ACK, MSG_STATUS,
    VERSION,
};

verus! {

/// A client that says nothing for longer than this is dropped (ns).
pub const HEARTBEAT_TIMEOUT: u64 = 5_000_000_000;

/// Something to do for a client's message, in order.
pub enum Effect {
    /// Write a keyboard report, and note how that went.
    Keyboard([u8; 8]),
    /// Write a pointer report, and note how that went.
    Pointer([u8; 6]),
    /// Send this to the client.
    Reply(Vec<u8>),
    /// Say that a key was dropped for want of a slot.
    KeyDropped(u8),
}

/// Something to do for a client's message.
#[verifier::ext_equal]
pub enum Act {
    Keyboard(Seq<u8>),
    Pointer(Seq<u8>),
    Reply(Seq<u8>),
    KeyDropped(u8),
}

impl View for Effect {
    type V = Act;

    open spec fn view(&self) -> Act {
        match *self {
            Effect::Keyboard(r) => Act::Keyboard(r@),
            Effect::Pointer(r) => Act::Pointer(r@),
            Effect::Reply(f) => Act::Reply(f@),
            Effect::KeyDropped(u) => Act::KeyDropped(u),
        }
    }
}

/// The acts of a list of effects.
pub open spec fn acts(effects: Seq<Effect>) -> Seq<Act> {
    effects.map_values(|e: Effect| e@)
}

/// Why the bridge closes a session on its own.
#[derive(Debug, Clone, Copy, PartialEq, Eq)]
pub enum CloseReason {
    /// Unknown type or wrong length; the header as it came.
    Malformed(u8, u8),
    /// The first message was not HELLO.
    NoHello,
    /// HELLO with a version that we do not speak.
    Version(u16),
}

/// Why a session ends before the next read.
#[derive(Debug, Clone, Copy, PartialEq, Eq, Structural)]
pub enum SessionEnd {
    Shutdown,
    HeartbeatTimeout,
}

/// What one step of a session came to.
pub enum Step {
    /// No whole message is there: read on.
    Wait,
    /// A message was handled.
    Ran(Vec<Effect>),
    /// The session is over, and everything is released.
    Closed(CloseReason, Vec<Effect>),
}

/// What one step of a session came to.
#[verifier::ext_equal]
pub enum StepView {
    Wait,
    Ran(Seq<Act>),
    Closed(CloseReason, Seq<Act>),
}

impl View for Step {
    type V = StepView;

    open spec fn view(&self) -> StepView {
        match *self {
            Step::Wait => StepView::Wait,
            Step::Ran(e) => StepView::Ran(acts(e@)),
            Step::Closed(why, e) => StepView::Closed(why, acts(e@)),
        }
    }
}

/// One client's connection.
struct Session {
    buf: Vec<u8>,
    greeted: bool,
    pending_abs: Option<(u16, u16)>,
    last_rx: u64,
}

/// One client's connection: bytes not read yet, whether it has said HELLO,
/// the newest position that has not been reported, and when the client was
/// last heard (ns).
#[verifier::ext_equal]
pub struct SessionView {
    pub buf: Seq<u8>,
    pub greeted: bool,
    pub pending_abs: Option<(u16, u16)>,
    pub last_rx: u64,
}

impl View for Session {
    type V = SessionView;

    closed spec fn view(&self) -> SessionView {
        SessionView {
            buf: self.buf@,
            greeted: self.greeted,
            pending_abs: self.pending_abs,
            last_rx: self.last_rx,
        }
    }
}

/// The bridge: the state it holds toward the host, and its client if it has
/// one (one at a time).
pub struct Bridge {
    hid: Hid,
    session: Option<Session>,
}

/// The state of the bridge.
#[verifier::ext_equal]
pub struct BridgeView {
    pub hid: HidView,
    pub session: Option<SessionView>,
}

impl View for Bridge {
    type V = BridgeView;

    closed spec fn view(&self) -> BridgeView {
        BridgeView {
            hid: self.hid@,
            session: match self.session {
                Some(s) => Some(s@),
                None => None,
            },
        }
    }
}

/// The HELLO_ACK that answers an accepted HELLO.
pub open spec fn ack() -> Act {
    Act::Reply(crate::protocol::frame_bytes(MSG_HELLO_ACK, crate::le::u16_le(VERSION)))
}

/// The state with a position that has been waiting put in place.
pub open spec fn settled(h: HidView, pending: Option<(u16, u16)>) -> HidView {
    match pending {
        Some((x, y)) => HidView { x, y, ..h },
        None => h,
    }
}

/// The report that a waiting position is owed.
pub open spec fn settle_acts(h: HidView, pending: Option<(u16, u16)>) -> Seq<Act> {
    match pending {
        Some(_) => seq![Act::Pointer(settled(h, pending).ptr_report(0))],
        None => Seq::empty(),
    }
}

/// The two reports that carry a full release.
pub open spec fn release_acts(h: HidView) -> Seq<Act> {
    seq![
        Act::Keyboard(h.released().kbd_report()),
        Act::Pointer(h.released().ptr_report(0)),
    ]
}

/// What a key message calls for.
pub open spec fn key_acts(h: HidView, usage: u8, down: bool) -> Seq<Act> {
    if h.already_held(usage, down) {
        Seq::empty()
    } else if h.overflows(usage, down) {
        seq![Act::KeyDropped(usage)]
    } else {
        seq![Act::Keyboard(h.after_key(usage, down).kbd_report())]
    }
}

/// What GET_STATUS is answered.
pub open spec fn status_of(h: HidView) -> Status {
    Status {
        modifiers: h.modifiers,
        held_keys: h.held_keys() as u8,
        buttons: h.buttons,
        hid_ok: h.hid_ok,
    }
}

/// What one message of a greeted client does: the state, the position left
/// waiting, and the acts. Positions are coalesced: only the newest is
/// reported, and before any button, wheel or release.
pub open spec fn handled(h: HidView, pending: Option<(u16, u16)>, m: Said) -> (
    HidView,
    Option<(u16, u16)>,
    Seq<Act>,
) {
    match m {
        Said::Keepalive | Said::Hello(_) => (h, pending, Seq::empty()),
        Said::KeyDown(u) => (h.after_key(u, true), pending, key_acts(h, u, true)),
        Said::KeyUp(u) => (h.after_key(u, false), pending, key_acts(h, u, false)),
        Said::KeyState(modifiers, keys) => {
            let h2 = HidView { modifiers, keys, ..h };
            (h2, pending, seq![Act::Keyboard(h2.kbd_report())])
        },
        Said::PointerAbs(x, y) => (h, Some((x, y)), Seq::empty()),
        Said::PointerButton(b) => {
            let h2 = HidView { buttons: b & 0x07, ..settled(h, pending) };
            (h2, None, settle_acts(h, pending).push(Act::Pointer(h2.ptr_report(0))))
        },
        Said::PointerWheel(d) => {
            let h2 = settled(h, pending);
            (h2, None, settle_acts(h, pending).push(Act::Pointer(h2.ptr_report(d))))
        },
        Said::ReleaseAll => {
            let h2 = settled(h, pending);
            (h2.released(), None, settle_acts(h, pending) + release_acts(h2))
        },
        Said::GetStatus => (
            h,
            pending,
            seq![
                Act::Reply(crate::protocol::frame_bytes(MSG_STATUS, status_of(h).payload())),
            ],
        ),
    }
}

impl BridgeView {
    /// Without a client nothing is held. There are six key slots.
    pub open spec fn wf(self) -> bool {
        &&& self.hid.keys.len() == 6
        &&& self.session is None ==> self.hid.is_released()
    }

    /// The session over, and everything released.
    pub open spec fn closed(self) -> BridgeView {
        BridgeView { hid: self.hid.released(), session: None }
    }

    /// Why the session ends before the next read, if it does.
    pub open spec fn ends_before_read(self, shutdown: bool, now: u64) -> Option<SessionEnd> {
        if shutdown {
            Some(SessionEnd::Shutdown)
        } else if now - self.session->0.last_rx > HEARTBEAT_TIMEOUT {
            Some(SessionEnd::HeartbeatTimeout)
        } else {
            None
        }
    }

    /// One step of a session: take the next message off the buffer and
    /// handle it.
    pub open spec fn stepped(self) -> (BridgeView, StepView) {
        let s = self.session->0;
        match crate::protocol::decoded(s.buf) {
            DecodedView::Incomplete => (self, StepView::Wait),
            DecodedView::Malformed => (
                self.closed(),
                StepView::Closed(
                    CloseReason::Malformed(s.buf[0], s.buf[1]),
                    release_acts(self.hid),
                ),
            ),
            DecodedView::Whole(m, n) => {
                let rest = s.buf.skip(n as int);
                if s.greeted {
                    let (hid, pending_abs, done) = handled(self.hid, s.pending_abs, m);
                    (
                        BridgeView {
                            hid,
                            session: Some(SessionView { buf: rest, pending_abs, ..s }),
                        },
                        StepView::Ran(done),
                    )
                } else {
                    match m {
                        Said::Hello(v) => if v == VERSION {
                            (
                                BridgeView {
                                    session: Some(SessionView { buf: rest, greeted: true, ..s }),
                                    ..self
                                },
                                StepView::Ran(seq![ack()]),
                            )
                        } else {
                            (
                                self.closed(),
                                StepView::Closed(CloseReason::Version(v), release_acts(self.hid)),
                            )
                        },
                        _ => (
                            self.closed(),
                            StepView::Closed(CloseReason::NoHello, release_acts(self.hid)),
                        ),
                    }
                }
            },
        }
    }
}

/// Report a waiting position.
fn settle(hid: &mut Hid, pending: Option<(u16, u16)>) -> (e: Vec<Effect>)
    ensures
        final(hid)@ == settled(old(hid)@, pending),
        acts(e@) == settle_acts(old(hid)@, pending),
{
    let mut e: Vec<Effect> = Vec::new();
    if let Some((x, y)) = pending {
        hid.x = x;
        hid.y = y;
        e.push(Effect::Pointer(hid.ptr_report(0)));
    }
    assert(acts(e@) =~= settle_acts(old(hid)@, pending));
    e
}

fn key_effects(hid: &mut Hid, usage: u8, down: bool) -> (e: Vec<Effect>)
    ensures
        final(hid)@ == old(hid)@.after_key(usage, down),
        acts(e@) == key_acts(old(hid)@, usage, down),
{
    let mut e: Vec<Effect> = Vec::new();
    match hid.key_event(usage, down) {
        KeyOutcome::Report(r) => e.push(Effect::Keyboard(r)),
        KeyOutcome::AlreadyHeld => {},
        KeyOutcome::Dropped => e.push(Effect::KeyDropped(usage)),
    }
    assert(acts(e@) =~= key_acts(old(hid)@, usage, down));
    e
}

/// Handle one message of a greeted client.
fn handle(hid: &mut Hid, pending: &mut Option<(u16, u16)>, m: Message) -> (e: Vec<Effect>)
    ensures
        (final(hid)@, *final(pending), acts(e@)) == handled(old(hid)@, *old(pending), m@),
{
    match m {
        Message::Keepalive | Message::Hello(_) => {
            let e: Vec<Effect> = Vec::new();
            assert(acts(e@) =~= Seq::empty());
            e
        },
        Message::KeyDown(u) => key_effects(hid, u, true),
        Message::KeyUp(u) => key_effects(hid, u, false),
        Message::KeyState(modifiers, keys) => {
            hid.modifiers = modifiers;
            hid.keys = keys;
            let e = vec![Effect::Keyboard(hid.kbd_report())];
            assert(acts(e@) =~= seq![Act::Keyboard(hid@.kbd_report())]);
            e
        },
        Message::PointerAbs(x, y) => {
            *pending = Some((x, y));
            let e: Vec<Effect> = Vec::new();
            assert(acts(e@) =~= Seq::empty());
            e
        },
        Message::PointerButton(b) => {
            let mut e = settle(hid, pending.take());
            hid.buttons = b & 0x07;
            e.push(Effect::Pointer(hid.ptr_report(0)));
            assert(acts(e@) =~= handled(old(hid)@, *old(pending), m@).2);
            e
        },
        Message::PointerWheel(d) => {
            let mut e = settle(hid, pending.take());
            e.push(Effect::Pointer(hid.ptr_report(d)));
            assert(acts(e@) =~= handled(old(hid)@, *old(pending), m@).2);
            e
        },
        Message::ReleaseAll => {
            let mut e = settle(hid, pending.take());
            let (kbd, ptr) = hid.release_all();
            e.push(Effect::Keyboard(kbd));
            e.push(Effect::Pointer(ptr));
            assert(acts(e@) =~= handled(old(hid)@, *old(pending), m@).2);
            e
        },
        Message::GetStatus => {
            let status = Status {
                modifiers: hid.modifiers,
                held_keys: hid.held_key_count(),
                buttons: hid.buttons,
                hid_ok: hid.hid_ok,
            };
            let e = vec![Effect::Reply(status.encode())];
            assert(acts(e@) =~= handled(old(hid)@, *old(pending), m@).2);
            e
        },
    }
}

impl Bridge {
    pub fn new() -> (b: Bridge)
        ensures
            b@ == (BridgeView { hid: HidView::initial(), session: None }),
            b@.wf(),
    {
        Bridge { hid: Hid::new(), session: None }
    }

    /// Record how writing a report went, and whether that is news.
    pub fn note_write(&mut self, ok: bool) -> (n: WriteNote)
        requires
            old(self)@.wf(),
        ensures
            final(self)@ == (BridgeView {
                hid: HidView { hid_ok: ok, ..old(self)@.hid },
                ..old(self)@
            }),
            n == crate::hid::write_note(old(self)@.hid.hid_ok, ok),
            final(self)@.wf(),
    {
        self.hid.note_write(ok)
    }

    /// Whether the last report went through.
    pub fn hid_ok(&self) -> (b: bool)
        ensures
            b == self@.hid.hid_ok,
    {
        self.hid.hid_ok
    }

    /// Whether any key, modifier or button is held.
    pub fn holds_input(&self) -> (b: bool)
        ensures
            b == !self@.hid.is_released(),
    {
        self.hid.holds_input()
    }

    /// Whether a client is connected.
    pub fn connected(&self) -> (b: bool)
        ensures
            b == (self@.session is Some),
    {
        self.session.is_some()
    }

    /// Start a session with a new client.
    pub fn accept(&mut self, now: u64)
        requires
            old(self)@.wf(),
            old(self)@.session is None,
        ensures
            final(self)@ == (BridgeView {
                session: Some(
                    SessionView {
                        buf: Seq::empty(),
                        greeted: false,
                        pending_abs: None,
                        last_rx: now,
                    },
                ),
                ..old(self)@
            }),
            final(self)@.wf(),
    {
        self.session = Some(
            Session { buf: Vec::new(), greeted: false, pending_abs: None, last_rx: now },
        );
    }

    /// Whether the session ends before the next read: on a shutdown request,
    /// or when the client has been silent for longer than the heartbeat
    /// allows.
    pub fn before_read(&self, shutdown: bool, now: u64) -> (r: Option<SessionEnd>)
        requires
            self@.session is Some,
        ensures
            r == self@.ends_before_read(shutdown, now),
    {
        if shutdown {
            return Some(SessionEnd::Shutdown);
        }
        match &self.session {
            Some(s) => {
                if now.saturating_sub(s.last_rx) > HEARTBEAT_TIMEOUT {
                    Some(SessionEnd::HeartbeatTimeout)
                } else {
                    None
                }
            },
            None => None,
        }
    }

    /// Take in bytes that the client sent. Anything resets the heartbeat.
    pub fn receive(&mut self, bytes: &[u8], now: u64)
        requires
            old(self)@.wf(),
            old(self)@.session is Some,
        ensures
            final(self)@ == (BridgeView {
                session: Some(
                    SessionView {
                        buf: old(self)@.session->0.buf + bytes@,
                        last_rx: now,
                        ..old(self)@.session->0
                    },
                ),
                ..old(self)@
            }),
            final(self)@.wf(),
    {
        if let Some(mut s) = self.session.take() {
            s.buf.extend_from_slice(bytes);
            s.last_rx = now;
            self.session = Some(s);
        }
    }

    /// Handle the next message that is there, if one is.
    pub fn step(&mut self) -> (r: Step)
        requires
            old(self)@.wf(),
            old(self)@.session is Some,
        ensures
            (final(self)@, r@) == old(self)@.stepped(),
            final(self)@.wf(),
    {
        let mut s = match self.session.take() {
            Some(s) => s,
            None => {
                return Step::Wait;
            },
        };
        match decode(s.buf.as_slice()) {
            Decoded::Incomplete => {
                self.session = Some(s);
                Step::Wait
            },
            Decoded::Malformed => Step::Closed(
                CloseReason::Malformed(s.buf[0], s.buf[1]),
                self.close(),
            ),
            Decoded::Whole(m, n) => {
                let rest = s.buf.split_off(n);
                s.buf = rest;
                if s.greeted {
                    let e = handle(&mut self.hid, &mut s.pending_abs, m);
                    self.session = Some(s);
                    return Step::Ran(e);
                }
                match m {
                    Message::Hello(v) => {
                        if v != VERSION {
                            return Step::Closed(CloseReason::Version(v), self.close());
                        }
                        s.greeted = true;
                        self.session = Some(s);
                        let e = vec![Effect::Reply(hello_ack())];
                        assert(acts(e@) =~= seq![ack()]);
                        Step::Ran(e)
                    },
                    _ => Step::Closed(CloseReason::NoHello, self.close()),
                }
            },
        }
    }

    /// End of what one read brought: report the newest position.
    pub fn end_of_batch(&mut self) -> (e: Vec<Effect>)
        requires
            old(self)@.wf(),
            old(self)@.session is Some,
        ensures
            final(self)@ == (BridgeView {
                hid: settled(old(self)@.hid, old(self)@.session->0.pending_abs),
                session: Some(SessionView { pending_abs: None, ..old(self)@.session->0 }),
            }),
            acts(e@) == settle_acts(old(self)@.hid, old(self)@.session->0.pending_abs),
            final(self)@.wf(),
    {
        match self.session.take() {
            Some(mut s) => {
                let e = settle(&mut self.hid, s.pending_abs.take());
                self.session = Some(s);
                e
            },
            None => Vec::new(),
        }
    }

    /// End the session, however it ended: everything is released, and the
    /// effects carry that to the host.
    pub fn close(&mut self) -> (e: Vec<Effect>)
        ensures
            final(self)@ == old(self)@.closed(),
            acts(e@) == release_acts(old(self)@.hid),
            final(self)@.wf(),
    {
        self.session = None;
        let (kbd, ptr) = self.hid.release_all();
        let e = vec![Effect::Keyboard(kbd), Effect::Pointer(ptr)];
        assert(acts(e@) =~= release_acts(old(self)@.hid));
        e
    }
}

} // verus!
