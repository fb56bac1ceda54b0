//! What the host sees of each message: the reports, byte by byte.

use vstd::prelude::*;

use crate::bridge::{Act, BridgeView, CloseReason, SessionEnd, SessionView, StepView};
use crate::hid::{HidView, WriteNote};
use crate::protocol::Said;

verus! {

/// Whether a pointer report shows these buttons, this position on the grid
/// of 32768 by 32768, and these wheel steps.
pub open spec fn shows(p: Seq<u8>, buttons: u8, x: u16, y: u16, wheel: i8) -> bool {
    &&& p.len() == 6
    &&& p[0] == buttons
    &&& p[1] + 256 * p[2] == x as int / 2
    &&& p[3] + 256 * p[4] == y as int / 2
    &&& wheel >= 0 ==> p[5] == wheel
    &&& wheel < 0 ==> p[5] == 256 + wheel
}

/// Whether a keyboard report shows these modifiers and keys.
pub open spec fn shows_keys(p: Seq<u8>, modifiers: u8, keys: Seq<u8>) -> bool {
    &&& p.len() == 8
    &&& p[0] == modifiers
    &&& p[1] == 0
    &&& p[2] == keys[0] && p[3] == keys[1] && p[4] == keys[2]
    &&& p[5] == keys[3] && p[6] == keys[4] && p[7] == keys[5]
}

/// The newest position: the one that waits, or else the one reported last.
pub open spec fn newest(h: HidView, pending: Option<(u16, u16)>) -> (u16, u16) {
    match pending {
        Some(p) => p,
        None => (h.x, h.y),
    }
}

/// A pointer report has the buttons first, then the position, then the
/// wheel; a keyboard report the modifiers, a zero, and the six keys.
pub proof fn reports_show_the_state(h: HidView, wheel: i8)
    requires
        h.keys.len() == 6,
    ensures
        shows(h.ptr_report(wheel), h.buttons, h.x, h.y, wheel),
        shows_keys(h.kbd_report(), h.modifiers, h.keys),
{
    lemma_pointer(h, wheel);
}

proof fn lemma_pointer(h: HidView, wheel: i8)
    ensures
        shows(h.ptr_report(wheel), h.buttons, h.x, h.y, wheel),
{
    let p = h.ptr_report(wheel);
    let x = crate::le::u16_le(h.x / 2);
    let y = crate::le::u16_le(h.y / 2);
    crate::le::u16_is_written_low_byte_first(h.x / 2, 0, 0);
    crate::le::u16_is_written_low_byte_first(h.y / 2, 0, 0);
    crate::le::steps_are_twos_complement(wheel, 0);
    assert(p[1] == x[0] && p[2] == x[1] && p[3] == y[0] && p[4] == y[1]);
}

/// A wheel message is one report with its steps, in its direction, at the
/// newest position and with the buttons that are held. If that position has
/// not been reported yet, it is, first. Nothing else changes.
pub proof fn wheel_steps_reach_the_host(h: HidView, pending: Option<(u16, u16)>, d: i8)
    ensures
        ({
            let (after, waiting, acts) = crate::bridge::handled(h, pending, Said::PointerWheel(d));
            let (x, y) = newest(h, pending);
            &&& acts.len() == if pending is Some {
                2int
            } else {
                1
            }
            &&& acts.last() matches Act::Pointer(p) && shows(p, h.buttons, x, y, d)
            &&& pending is Some ==> (acts[0] matches Act::Pointer(p) && shows(
                p,
                h.buttons,
                x,
                y,
                0,
            ))
            &&& waiting is None
            &&& after == (HidView { x, y, ..h })
        }),
{
    let now = crate::bridge::settled(h, pending);
    lemma_pointer(now, d);
    lemma_pointer(now, 0);
}

/// A button message is one report with the three buttons that it carries,
/// at the newest position and without wheel steps. If that position has not
/// been reported yet, it is, first, with the buttons that were held before.
pub proof fn buttons_reach_the_host(h: HidView, pending: Option<(u16, u16)>, b: u8)
    ensures
        ({
            let (after, waiting, acts) = crate::bridge::handled(h, pending, Said::PointerButton(b));
            let (x, y) = newest(h, pending);
            &&& acts.len() == if pending is Some {
                2int
            } else {
                1
            }
            &&& acts.last() matches Act::Pointer(p) && shows(p, (b % 8) as u8, x, y, 0)
            &&& pending is Some ==> (acts[0] matches Act::Pointer(p) && shows(
                p,
                h.buttons,
                x,
                y,
                0,
            ))
            &&& waiting is None
            &&& after == (HidView { x, y, buttons: (b % 8) as u8, ..h })
        }),
{
    assert(b & 0x07 == b % 8) by (bit_vector);
    let now = crate::bridge::settled(h, pending);
    let after = crate::bridge::handled(h, pending, Said::PointerButton(b)).0;
    lemma_pointer(now, 0);
    lemma_pointer(after, 0);
}

/// A position waits, in place of any that waited before, and changes nothing
/// until it is reported: then it is where the pointer is, with the buttons
/// that are held and no wheel steps. With none waiting nothing is reported.
pub proof fn positions_reach_the_host(h: HidView, pending: Option<(u16, u16)>, x: u16, y: u16)
    ensures
        crate::bridge::handled(h, pending, Said::PointerAbs(x, y)) == (
            h,
            Some((x, y)),
            Seq::<Act>::empty(),
        ),
        crate::bridge::settled(h, Some((x, y))) == (HidView { x, y, ..h }),
        crate::bridge::settled(h, None) == h,
        crate::bridge::settle_acts(h, Some((x, y))).len() == 1,
        crate::bridge::settle_acts(h, Some((x, y)))[0] matches Act::Pointer(p) && shows(
            p,
            h.buttons,
            x,
            y,
            0,
        ),
        crate::bridge::settle_acts(h, None).len() == 0,
{
    lemma_pointer(HidView { x, y, ..h }, 0);
}

/// RELEASE_ALL is two reports: no modifier and no key, and no button at the
/// newest position, which is reported first if it has not been yet.
pub proof fn releases_reach_the_host(h: HidView, pending: Option<(u16, u16)>)
    ensures
        ({
            let (after, waiting, acts) = crate::bridge::handled(h, pending, Said::ReleaseAll);
            let (x, y) = newest(h, pending);
            let n: int = if pending is Some {
                1
            } else {
                0
            };
            &&& acts.len() == n + 2
            &&& pending is Some ==> (acts[0] matches Act::Pointer(p) && shows(
                p,
                h.buttons,
                x,
                y,
                0,
            ))
            &&& acts[n] == Act::Keyboard(seq![0u8, 0, 0, 0, 0, 0, 0, 0])
            &&& acts[n + 1] matches Act::Pointer(p) && shows(p, 0, x, y, 0)
            &&& waiting is None
            &&& after.modifiers == 0 && after.buttons == 0 && after.x == x && after.y == y
                && after.hid_ok == h.hid_ok
            &&& after.keys == seq![0u8, 0, 0, 0, 0, 0]
        }),
{
    let now = crate::bridge::settled(h, pending);
    lemma_pointer(now, 0);
    lemma_pointer(now.released(), 0);
    assert(now.released().kbd_report() =~= seq![0u8, 0, 0, 0, 0, 0, 0, 0]);
}

/// However a session is closed, the host is sent no modifier and no key, and
/// no button where the pointer is; the client's state is gone.
pub proof fn closing_reaches_the_host(b: BridgeView)
    ensures
        ({
            let acts = crate::bridge::release_acts(b.hid);
            &&& acts.len() == 2
            &&& acts[0] == Act::Keyboard(seq![0u8, 0, 0, 0, 0, 0, 0, 0])
            &&& acts[1] matches Act::Pointer(p) && shows(p, 0, b.hid.x, b.hid.y, 0)
            &&& b.closed().session is None
            &&& b.closed().hid.modifiers == 0 && b.closed().hid.buttons == 0
            &&& b.closed().hid.keys == seq![0u8, 0, 0, 0, 0, 0]
            &&& b.closed().hid.x == b.hid.x && b.closed().hid.y == b.hid.y
            &&& b.closed().hid.hid_ok == b.hid.hid_ok
        }),
{
    lemma_pointer(b.hid.released(), 0);
    assert(b.hid.released().kbd_report() =~= seq![0u8, 0, 0, 0, 0, 0, 0, 0]);
}

/// The eight modifiers, from left Control to the right logo key, are the
/// eight bits of the modifier byte, in order: a press sets the bit, a
/// release clears it, and each is one report of the new state.
pub proof fn modifiers_reach_the_host(
    h: HidView,
    pending: Option<(u16, u16)>,
    i: u8,
    j: u8,
    down: bool,
)
    requires
        h.keys.len() == 6,
        i < 8,
        j < 8,
    ensures
        ({
            let usage = (0xe0 + i) as u8;
            let m = if down {
                Said::KeyDown(usage)
            } else {
                Said::KeyUp(usage)
            };
            let (after, waiting, acts) = crate::bridge::handled(h, pending, m);
            &&& (after.modifiers >> j) % 2 == if i != j {
                (h.modifiers >> j) % 2
            } else if down {
                1
            } else {
                0
            }
            &&& after == (HidView { modifiers: after.modifiers, ..h })
            &&& waiting == pending
            &&& acts.len() == 1
            &&& acts[0] matches Act::Keyboard(p) && shows_keys(p, after.modifiers, h.keys)
        }),
{
    let m = h.modifiers;
    assert(((m | (1u8 << i)) >> j) % 2 == if i == j {
        1u8
    } else {
        (m >> j) % 2
    }) by (bit_vector)
        requires
            i < 8,
            j < 8,
    ;
    assert(((m & !(1u8 << i)) >> j) % 2 == if i == j {
        0u8
    } else {
        (m >> j) % 2
    }) by (bit_vector)
        requires
            i < 8,
            j < 8,
    ;
}

/// A press of any other key puts it in the first empty slot and is one
/// report of the new state. If the key is held nothing happens; if no slot
/// is empty the key is dropped, and said to be.
pub proof fn presses_reach_the_host(h: HidView, pending: Option<(u16, u16)>, usage: u8, slot: int)
    requires
        h.keys.len() == 6,
        usage < 0xe0 || usage > 0xe7,
    ensures
        ({
            let (after, waiting, acts) = crate::bridge::handled(h, pending, Said::KeyDown(usage));
            &&& waiting == pending
            &&& h.keys.contains(usage) ==> after == h && acts.len() == 0
            &&& !h.keys.contains(usage) && !h.keys.contains(0) ==> after == h && acts == seq![
                Act::KeyDropped(usage),
            ]
            &&& !h.keys.contains(usage) && 0 <= slot < 6 && h.keys[slot] == 0 && (forall|i: int|
                0 <= i < slot ==> h.keys[i] != 0) ==> {
                &&& after == (HidView { keys: h.keys.update(slot, usage), ..h })
                &&& acts.len() == 1
                &&& acts[0] matches Act::Keyboard(p) && shows_keys(p, h.modifiers, after.keys)
            }
        }),
{
    h.keys.index_of_first_ensures(0u8);
    if 0 <= slot < 6 && h.keys[slot] == 0 && (forall|i: int| 0 <= i < slot ==> h.keys[i] != 0) {
        assert(h.keys.contains(h.keys[slot]));
        let first = h.keys.index_of_first(0u8)->0;
        assert(first == slot) by {
            if first < slot {
                assert(h.keys[first] != 0);
            }
            if slot < first {
                assert(h.keys[slot] != 0);
            }
        }
    }
}

/// A release of any other key empties every slot that it is in, keeps the
/// other keys where they are, and is one report of the new state.
pub proof fn key_releases_reach_the_host(h: HidView, pending: Option<(u16, u16)>, usage: u8)
    requires
        h.keys.len() == 6,
        usage < 0xe0 || usage > 0xe7,
    ensures
        ({
            let (after, waiting, acts) = crate::bridge::handled(h, pending, Said::KeyUp(usage));
            &&& waiting == pending
            &&& after.keys.len() == 6
            &&& forall|i: int|
                0 <= i < 6 ==> #[trigger] after.keys[i] == if h.keys[i] == usage {
                    0
                } else {
                    h.keys[i]
                }
            &&& after == (HidView { keys: after.keys, ..h })
            &&& acts.len() == 1
            &&& acts[0] matches Act::Keyboard(p) && shows_keys(p, h.modifiers, after.keys)
        }),
{
}

/// KEY_STATE puts modifiers and keys in place of all that were held, and is
/// one report of them.
pub proof fn key_states_reach_the_host(
    h: HidView,
    pending: Option<(u16, u16)>,
    modifiers: u8,
    keys: Seq<u8>,
)
    requires
        keys.len() == 6,
    ensures
        ({
            let (after, waiting, acts) = crate::bridge::handled(
                h,
                pending,
                Said::KeyState(modifiers, keys),
            );
            &&& waiting == pending
            &&& after == (HidView { modifiers, keys, ..h })
            &&& acts.len() == 1
            &&& acts[0] matches Act::Keyboard(p) && shows_keys(p, modifiers, keys)
        }),
{
}

/// KEEPALIVE and a second HELLO do nothing; GET_STATUS changes nothing, and
/// is answered with the modifiers, the number of keys that are held, the
/// buttons, and whether reports go through.
pub proof fn status_reaches_the_client(h: HidView, pending: Option<(u16, u16)>, v: u16)
    requires
        h.keys.len() == 6,
    ensures
        crate::bridge::handled(h, pending, Said::Keepalive) == (h, pending, Seq::<Act>::empty()),
        crate::bridge::handled(h, pending, Said::Hello(v)) == (h, pending, Seq::<Act>::empty()),
        ({
            let (after, waiting, acts) = crate::bridge::handled(h, pending, Said::GetStatus);
            let held = |i: int| if h.keys[i] == 0 {
                0int
            } else {
                1int
            };
            &&& after == h
            &&& waiting == pending
            &&& acts.len() == 1
            &&& acts[0] matches Act::Reply(f) && f.len() == 6 && f[0] == 0x41 && f[1] == 4 && f[2]
                == h.modifiers && f[3] == held(0) + held(1) + held(2) + held(3) + held(4) + held(5)
                && f[4] == h.buttons && f[5] == if h.hid_ok {
                    1int
                } else {
                    0
                }
        }),
{
    let k = h.keys;
    let held = |k: u8| k != 0;
    reveal_with_fuel(Seq::filter, 7);
    assert(k.drop_last() =~= k.take(5));
    assert(k.take(5).drop_last() =~= k.take(4));
    assert(k.take(4).drop_last() =~= k.take(3));
    assert(k.take(3).drop_last() =~= k.take(2));
    assert(k.take(2).drop_last() =~= k.take(1));
    assert(k.take(1).drop_last() =~= k.take(0));
    assert(k.take(0).filter(held).len() == 0);
    assert(k.filter(held).len() <= 6);
}

/// A client that says HELLO with version 1 first is answered with version 1;
/// any other first message, any other version and any message that cannot be
/// read end the session, with the reason.
pub proof fn first_messages_are_judged(b: BridgeView, s: SessionView, v: u16, m: Said)
    requires
        b.session == Some(s),
        !s.greeted,
        m.wf(),
    ensures
        s.buf == Said::Hello(1).wire() ==> b.stepped() == (
            BridgeView {
                session: Some(SessionView { buf: Seq::empty(), greeted: true, ..s }),
                ..b
            },
            StepView::Ran(seq![Act::Reply(seq![2u8, 2, 1, 0])]),
        ),
        s.buf == Said::Hello(v).wire() && v != 1 ==> b.stepped().1 == StepView::Closed(
            CloseReason::Version(v),
            crate::bridge::release_acts(b.hid),
        ),
        s.buf == m.wire() && !(m is Hello) ==> b.stepped().1 == StepView::Closed(
            CloseReason::NoHello,
            crate::bridge::release_acts(b.hid),
        ),
{
    let none = Seq::<u8>::empty();
    crate::protocol::message_round_trip(Said::Hello(1), none);
    crate::protocol::message_round_trip(Said::Hello(v), none);
    crate::protocol::message_round_trip(m, none);
    assert(Said::Hello(1).wire() + none =~= Said::Hello(1).wire());
    assert(Said::Hello(v).wire() + none =~= Said::Hello(v).wire());
    assert(m.wire() + none =~= m.wire());
    let n = Said::Hello(1).wire().len() as int;
    assert(Said::Hello(1).wire().skip(n) =~= none);
    let a = crate::protocol::frame_bytes(
        crate::protocol::MSG_HELLO_ACK,
        crate::le::u16_le(crate::protocol::VERSION),
    );
    crate::le::u16_is_written_low_byte_first(1, 0, 0);
    assert(a =~= seq![2u8, 2, 1, 0]);
}

/// A client is waited for until a whole message is there, and its session
/// ends, with the two bytes of the message's head as the reason, on one that
/// cannot be read. Either way nothing of it is handled.
pub proof fn messages_must_be_whole_and_known(b: BridgeView, s: SessionView)
    requires
        b.session == Some(s),
    ensures
        crate::protocol::decoded(s.buf) is Incomplete ==> b.stepped() == (b, StepView::Wait),
        crate::protocol::decoded(s.buf) is Malformed ==> b.stepped() == (
            b.closed(),
            StepView::Closed(
                CloseReason::Malformed(s.buf[0], s.buf[1]),
                crate::bridge::release_acts(b.hid),
            ),
        ),
{
}

/// A session ends before the next read when a shutdown is asked for, or else
/// when nothing has come for more than five seconds.
pub proof fn silent_clients_are_dropped(s: SessionView, b: BridgeView, shutdown: bool, now: u64)
    requires
        b.session == Some(s),
    ensures
        b.ends_before_read(shutdown, now) == Some(SessionEnd::Shutdown) <==> shutdown,
        b.ends_before_read(shutdown, now) == Some(SessionEnd::HeartbeatTimeout) <==> !shutdown
            && now > s.last_rx + 5_000_000_000,
{
}

/// The bridge begins with nothing held and the pointer in the middle of the
/// screen, and takes reports to go through. How a report went is news when
/// it is not how the one before went.
pub proof fn first_state_and_write_notes(before: bool, ok: bool)
    ensures
        ({
            let h = HidView::initial();
            &&& h.modifiers == 0 && h.buttons == 0 && h.x == 32768 && h.y == 32768 && h.hid_ok
            &&& h.keys == seq![0u8, 0, 0, 0, 0, 0]
        }),
        crate::hid::write_note(before, ok) == WriteNote::Recovered <==> ok && !before,
        crate::hid::write_note(before, ok) == WriteNote::Failing <==> !ok && before,
{
}

} // verus!
