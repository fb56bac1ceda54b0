//! What the bridge guarantees over a whole session.

use vstd::prelude::*;

use crate::bridge::{Act, BridgeView, SessionView, StepView};
use crate::hid::HidView;
use crate::protocol::Said;

verus! {

/// The safety property: however a session ends, nothing is held afterwards,
/// and the host is sent an empty keyboard report and a pointer report
/// without buttons at the last known position.
pub proof fn every_exit_releases_everything(b: BridgeView)
    ensures
        b.closed().session is None,
        b.closed().hid.is_released(),
        b.closed().hid.x == b.hid.x,
        b.closed().hid.y == b.hid.y,
        crate::bridge::release_acts(b.hid) == seq![
            Act::Keyboard(Seq::new(8, |i: int| 0u8)),
            Act::Pointer(
                seq![0u8] + crate::le::u16_le(b.hid.x / 2) + crate::le::u16_le(b.hid.y / 2)
                    + seq![0u8],
            ),
        ],
{
    assert(b.hid.released().kbd_report() =~= Seq::new(8, |i: int| 0u8));
}

/// A session that the bridge closes on its own ends the same way.
pub proof fn refused_session_releases_everything(b: BridgeView)
    requires
        b.session is Some,
    ensures
        b.stepped().1 is Closed ==> b.stepped().0 == b.closed() && b.stepped().1->Closed_1
            == crate::bridge::release_acts(b.hid),
        b.stepped().1 !is Closed ==> b.stepped().0.session is Some,
{
}

/// The first message must be HELLO with our version: until then a client
/// makes nothing happen but an acknowledgement, or the end of its session.
pub proof fn nothing_happens_before_hello(b: BridgeView)
    requires
        b.session matches Some(s) && !s.greeted,
    ensures
        b.stepped().1 is Closed || b.stepped().0.hid == b.hid,
        b.stepped().1 matches StepView::Ran(done) ==> done == seq![crate::bridge::ack()]
            && b.stepped().0.session->0.greeted,
{
}

/// A message that a greeted client wrote is handled as it was meant, and
/// the bytes behind it are left for the next step.
pub proof fn messages_are_handled_as_sent(b: BridgeView, s: SessionView, m: Said, rest: Seq<u8>)
    requires
        b.session == Some(s),
        s.greeted,
        m.wf(),
        s.buf == m.wire() + rest,
    ensures
        ({
            let (hid, pending_abs, done) = crate::bridge::handled(b.hid, s.pending_abs, m);
            b.stepped() == (
                BridgeView { hid, session: Some(SessionView { buf: rest, pending_abs, ..s }) },
                StepView::Ran(done),
            )
        }),
{
    crate::protocol::message_round_trip(m, rest);
    assert(s.buf.skip(m.wire().len() as int) =~= rest);
}

/// A client is greeted exactly when it says HELLO with our version first.
pub proof fn hello_is_answered(b: BridgeView, s: SessionView, v: u16, rest: Seq<u8>)
    requires
        b.session == Some(s),
        !s.greeted,
        s.buf == Said::Hello(v).wire() + rest,
    ensures
        v == crate::protocol::VERSION ==> b.stepped() == (
            BridgeView {
                session: Some(SessionView { buf: rest, greeted: true, ..s }),
                ..b
            },
            StepView::Ran(seq![crate::bridge::ack()]),
        ),
        v != crate::protocol::VERSION ==> b.stepped().1 is Closed,
{
    crate::protocol::message_round_trip(Said::Hello(v), rest);
    assert(s.buf.skip(Said::Hello(v).wire().len() as int) =~= rest);
}

/// What a bridge that reports every position at once would do on a message.
pub open spec fn handled_at_once(h: HidView, m: Said) -> (HidView, Seq<Act>) {
    match m {
        Said::PointerAbs(x, y) => {
            let h2 = HidView { x, y, ..h };
            (h2, seq![Act::Pointer(h2.ptr_report(0))])
        },
        _ => {
            let r = crate::bridge::handled(h, None, m);
            (r.0, r.2)
        },
    }
}

/// Coalescing positions loses nothing but superseded ones: with the waiting
/// position put in place, the state after a message is what it would be if
/// every position were reported at once; and what the message itself calls
/// for is the same, so that buttons, wheel steps and releases always act at
/// the newest position.
pub proof fn coalescing_is_transparent(h: HidView, pending: Option<(u16, u16)>, m: Said)
    ensures
        ({
            let (h2, pending2, done) = crate::bridge::handled(h, pending, m);
            let now = crate::bridge::settled(h, pending);
            let direct = handled_at_once(now, m);
            &&& crate::bridge::settled(h2, pending2) == direct.0
            &&& match m {
                Said::PointerAbs(_, _) => done.len() == 0 && crate::bridge::settle_acts(
                    h2,
                    pending2,
                ) == direct.1,
                Said::PointerButton(_) | Said::PointerWheel(_) | Said::ReleaseAll => pending2
                    is None && done == crate::bridge::settle_acts(h, pending) + direct.1,
                _ => pending2 == pending && done == direct.1,
            }
        }),
{
    let (h2, pending2, done) = crate::bridge::handled(h, pending, m);
    let now = crate::bridge::settled(h, pending);
    let direct = handled_at_once(now, m);
    match m {
        Said::PointerButton(_) | Said::PointerWheel(_) | Said::ReleaseAll => {
            assert(done =~= crate::bridge::settle_acts(h, pending) + direct.1);
        },
        _ => {},
    }
}

/// The state that a list of messages leaves, positions coalesced.
pub open spec fn handled_all(h: HidView, pending: Option<(u16, u16)>, ms: Seq<Said>) -> (
    HidView,
    Option<(u16, u16)>,
)
    decreases ms.len(),
{
    if ms.len() == 0 {
        (h, pending)
    } else {
        let before = handled_all(h, pending, ms.drop_last());
        let r = crate::bridge::handled(before.0, before.1, ms.last());
        (r.0, r.1)
    }
}

/// The state that a list of messages leaves, every position reported at
/// once.
pub open spec fn handled_all_at_once(h: HidView, ms: Seq<Said>) -> HidView
    decreases ms.len(),
{
    if ms.len() == 0 {
        h
    } else {
        handled_at_once(handled_all_at_once(h, ms.drop_last()), ms.last()).0
    }
}

/// At the end of a batch the state is the one that reporting every position
/// would have led to.
pub proof fn batch_ends_in_the_same_state(h: HidView, pending: Option<(u16, u16)>, ms: Seq<Said>)
    ensures
        ({
            let (h2, pending2) = handled_all(h, pending, ms);
            crate::bridge::settled(h2, pending2) == handled_all_at_once(
                crate::bridge::settled(h, pending),
                ms,
            )
        }),
    decreases ms.len(),
{
    if ms.len() > 0 {
        batch_ends_in_the_same_state(h, pending, ms.drop_last());
        let before = handled_all(h, pending, ms.drop_last());
        coalescing_is_transparent(before.0, before.1, ms.last());
    }
}

/// Buttons are absolute: after a button message the state is the three low
/// bits that it carries, whatever it was before.
pub proof fn buttons_are_absolute(
    h1: HidView,
    h2: HidView,
    p1: Option<(u16, u16)>,
    p2: Option<(u16, u16)>,
    b: u8,
)
    ensures
        crate::bridge::handled(h1, p1, Said::PointerButton(b)).0.buttons == crate::bridge::handled(
            h2,
            p2,
            Said::PointerButton(b),
        ).0.buttons,
        crate::bridge::handled(h1, p1, Said::PointerButton(b)).0.buttons <= 0x07,
        b <= 0x07 ==> crate::bridge::handled(h1, p1, Said::PointerButton(b)).0.buttons == b,
{
    assert(b & 0x07 <= 0x07) by (bit_vector);
    assert(b <= 0x07 ==> b & 0x07 == b) by (bit_vector);
}

/// RELEASE_ALL leaves nothing held, whatever was.
pub proof fn release_all_releases(h: HidView, pending: Option<(u16, u16)>)
    ensures
        crate::bridge::handled(h, pending, Said::ReleaseAll).0.is_released(),
{
}

} // verus!
