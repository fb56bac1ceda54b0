//! Bridge protocol v1: the input messages between the router (client) and
//! the bridge (server).
//!
//! Every message is `[type: u8] [len: u8] [payload: len bytes]`, with `len`
//! fixed per type and multi-byte integers little-endian.

use vstd::prelude::*;

use crate::le::{i8_from_byte, i8_to_byte, u16_from_le, u16_to_le};

verus! {

pub const VERSION: u16 = 1;

pub const MAX_PAYLOAD: usize = 32;

pub const MSG_HELLO: u8 = 0x01;

pub const MSG_HELLO_ACK: u8 = 0x02;

pub const MSG_KEEPALIVE: u8 = 0x03;

pub const MSG_KEY_DOWN: u8 = 0x10;

pub const MSG_KEY_UP: u8 = 0x11;

pub const MSG_KEY_STATE: u8 = 0x12;

pub const MSG_POINTER_ABS: u8 = 0x20;

pub const MSG_POINTER_BUTTON: u8 = 0x21;

pub const MSG_POINTER_WHEEL: u8 = 0x22;

pub const MSG_RELEASE_ALL: u8 = 0x30;

pub const MSG_GET_STATUS: u8 = 0x40;

pub const MSG_STATUS: u8 = 0x41;

/// The bytes of a message.
pub open spec fn frame_bytes(msg_type: u8, payload: Seq<u8>) -> Seq<u8> {
    seq![msg_type, payload.len() as u8] + payload
}

pub fn frame(msg_type: u8, payload: &[u8]) -> (f: Vec<u8>)
    requires
        payload@.len() <= MAX_PAYLOAD,
    ensures
        f@ == frame_bytes(msg_type, payload@),
{
    let mut f: Vec<u8> = Vec::with_capacity(2 + payload.len());
    f.push(msg_type);
    f.push(payload.len() as u8);
    f.extend_from_slice(payload);
    assert(f@ =~= frame_bytes(msg_type, payload@));
    f
}

/// What a client can say.
#[derive(Debug, Clone, Copy)]
pub enum Message {
    /// Protocol version of the client.
    Hello(u16),
    Keepalive,
    /// HID usage id.
    KeyDown(u8),
    KeyUp(u8),
    /// Modifier byte and six usage slots, authoritative.
    KeyState(u8, [u8; 6]),
    /// Canonical coordinates, 0..65535.
    PointerAbs(u16, u16),
    /// Full absolute button state: bit0 left, bit1 right, bit2 middle.
    PointerButton(u8),
    /// Detents.
    PointerWheel(i8),
    ReleaseAll,
    GetStatus,
}

/// What a client can say, with the usage slots as a sequence.
#[verifier::ext_equal]
pub enum Said {
    Hello(u16),
    Keepalive,
    KeyDown(u8),
    KeyUp(u8),
    KeyState(u8, Seq<u8>),
    PointerAbs(u16, u16),
    PointerButton(u8),
    PointerWheel(i8),
    ReleaseAll,
    GetStatus,
}

impl View for Message {
    type V = Said;

    open spec fn view(&self) -> Said {
        match *self {
            Message::Hello(v) => Said::Hello(v),
            Message::Keepalive => Said::Keepalive,
            Message::KeyDown(u) => Said::KeyDown(u),
            Message::KeyUp(u) => Said::KeyUp(u),
            Message::KeyState(m, keys) => Said::KeyState(m, keys@),
            Message::PointerAbs(x, y) => Said::PointerAbs(x, y),
            Message::PointerButton(b) => Said::PointerButton(b),
            Message::PointerWheel(d) => Said::PointerWheel(d),
            Message::ReleaseAll => Said::ReleaseAll,
            Message::GetStatus => Said::GetStatus,
        }
    }
}

impl Said {
    pub open spec fn msg_type(self) -> u8 {
        match self {
            Said::Hello(_) => MSG_HELLO,
            Said::Keepalive => MSG_KEEPALIVE,
            Said::KeyDown(_) => MSG_KEY_DOWN,
            Said::KeyUp(_) => MSG_KEY_UP,
            Said::KeyState(_, _) => MSG_KEY_STATE,
            Said::PointerAbs(_, _) => MSG_POINTER_ABS,
            Said::PointerButton(_) => MSG_POINTER_BUTTON,
            Said::PointerWheel(_) => MSG_POINTER_WHEEL,
            Said::ReleaseAll => MSG_RELEASE_ALL,
            Said::GetStatus => MSG_GET_STATUS,
        }
    }

    pub open spec fn payload(self) -> Seq<u8> {
        match self {
            Said::Hello(v) => crate::le::u16_le(v),
            Said::KeyDown(u) => seq![u],
            Said::KeyUp(u) => seq![u],
            Said::KeyState(m, keys) => seq![m] + keys,
            Said::PointerAbs(x, y) => crate::le::u16_le(x) + crate::le::u16_le(y),
            Said::PointerButton(b) => seq![b],
            Said::PointerWheel(d) => seq![crate::le::i8_byte(d)],
            Said::Keepalive | Said::ReleaseAll | Said::GetStatus => Seq::empty(),
        }
    }

    /// The message on the wire.
    pub open spec fn wire(self) -> Seq<u8> {
        frame_bytes(self.msg_type(), self.payload())
    }

    /// A key state has six slots.
    pub open spec fn wf(self) -> bool {
        self matches Said::KeyState(_, keys) ==> keys.len() == 6
    }
}

impl Message {
    pub fn encode(&self) -> (f: Vec<u8>)
        ensures
            f@ == self@.wire(),
            self@.wf(),
    {
        match *self {
            Message::Hello(v) => frame(MSG_HELLO, &u16_to_le(v)),
            Message::Keepalive => frame(MSG_KEEPALIVE, &[]),
            Message::KeyDown(u) => frame(MSG_KEY_DOWN, &[u]),
            Message::KeyUp(u) => frame(MSG_KEY_UP, &[u]),
            Message::KeyState(m, k) => {
                let p = [m, k[0], k[1], k[2], k[3], k[4], k[5]];
                assert(p@ =~= seq![m] + k@);
                frame(MSG_KEY_STATE, &p)
            },
            Message::PointerAbs(x, y) => {
                let bx = u16_to_le(x);
                let by = u16_to_le(y);
                let p = [bx[0], bx[1], by[0], by[1]];
                assert(p@ =~= bx@ + by@);
                frame(MSG_POINTER_ABS, &p)
            },
            Message::PointerButton(b) => frame(MSG_POINTER_BUTTON, &[b]),
            Message::PointerWheel(d) => frame(MSG_POINTER_WHEEL, &[i8_to_byte(d)]),
            Message::ReleaseAll => frame(MSG_RELEASE_ALL, &[]),
            Message::GetStatus => frame(MSG_GET_STATUS, &[]),
        }
    }
}

/// The payload length of each message that a client can send.
pub open spec fn client_len(msg_type: u8) -> Option<nat> {
    if msg_type == MSG_HELLO {
        Some(2)
    } else if msg_type == MSG_KEEPALIVE || msg_type == MSG_RELEASE_ALL || msg_type
        == MSG_GET_STATUS {
        Some(0)
    } else if msg_type == MSG_KEY_DOWN || msg_type == MSG_KEY_UP || msg_type == MSG_POINTER_BUTTON
        || msg_type == MSG_POINTER_WHEEL {
        Some(1)
    } else if msg_type == MSG_KEY_STATE {
        Some(7)
    } else if msg_type == MSG_POINTER_ABS {
        Some(4)
    } else {
        None
    }
}

/// Expected payload length per message type; None = unknown type.
pub fn expected_len(msg_type: u8) -> (r: Option<usize>)
    ensures
        match r {
            Some(n) => client_len(msg_type) == Some(n as nat),
            None => client_len(msg_type) is None,
        },
{
    Some(
        match msg_type {
            MSG_HELLO => 2,
            MSG_KEEPALIVE | MSG_RELEASE_ALL | MSG_GET_STATUS => 0,
            MSG_KEY_DOWN | MSG_KEY_UP | MSG_POINTER_BUTTON | MSG_POINTER_WHEEL => 1,
            MSG_KEY_STATE => 7,
            MSG_POINTER_ABS => 4,
            _ => {
                return None;
            },
        },
    )
}

/// What the start of a byte stream holds.
pub enum Decoded {
    /// Not yet a whole message.
    Incomplete,
    /// Unknown type, or a length that is not the type's own.
    Malformed,
    /// A message, and how many bytes it took.
    Whole(Message, usize),
}

/// What the start of a byte stream holds.
#[verifier::ext_equal]
pub enum DecodedView {
    Incomplete,
    Malformed,
    Whole(Said, nat),
}

impl View for Decoded {
    type V = DecodedView;

    open spec fn view(&self) -> DecodedView {
        match *self {
            Decoded::Incomplete => DecodedView::Incomplete,
            Decoded::Malformed => DecodedView::Malformed,
            Decoded::Whole(m, n) => DecodedView::Whole(m@, n as nat),
        }
    }
}

/// The message that a payload of its type's length writes.
pub open spec fn said_of(msg_type: u8, p: Seq<u8>) -> Said {
    if msg_type == MSG_HELLO {
        Said::Hello(crate::le::le_u16(p[0], p[1]))
    } else if msg_type == MSG_KEEPALIVE {
        Said::Keepalive
    } else if msg_type == MSG_KEY_DOWN {
        Said::KeyDown(p[0])
    } else if msg_type == MSG_KEY_UP {
        Said::KeyUp(p[0])
    } else if msg_type == MSG_KEY_STATE {
        Said::KeyState(p[0], p.subrange(1, 7))
    } else if msg_type == MSG_POINTER_ABS {
        Said::PointerAbs(crate::le::le_u16(p[0], p[1]), crate::le::le_u16(p[2], p[3]))
    } else if msg_type == MSG_POINTER_BUTTON {
        Said::PointerButton(p[0])
    } else if msg_type == MSG_POINTER_WHEEL {
        Said::PointerWheel(crate::le::byte_i8(p[0]))
    } else if msg_type == MSG_RELEASE_ALL {
        Said::ReleaseAll
    } else {
        Said::GetStatus
    }
}

/// What the start of a byte stream holds. A wrong header is found out as
/// soon as the header is there, whether or not its payload is.
pub open spec fn decoded(buf: Seq<u8>) -> DecodedView {
    if buf.len() < 2 {
        DecodedView::Incomplete
    } else {
        match client_len(buf[0]) {
            Some(n) => if n != buf[1] {
                DecodedView::Malformed
            } else if buf.len() < 2 + n {
                DecodedView::Incomplete
            } else {
                DecodedView::Whole(said_of(buf[0], buf.subrange(2, 2 + n as int)), 2 + n)
            },
            None => DecodedView::Malformed,
        }
    }
}

/// Take the first message off a byte stream.
pub fn decode(buf: &[u8]) -> (d: Decoded)
    ensures
        d@ == decoded(buf@),
{
    if buf.len() < 2 {
        return Decoded::Incomplete;
    }
    let msg_type: u8 = buf[0];
    let len: usize = buf[1] as usize;
    match expected_len(msg_type) {
        Some(want) => {
            if want != len || len > MAX_PAYLOAD {
                return Decoded::Malformed;
            }
        },
        None => {
            return Decoded::Malformed;
        },
    }
    if buf.len() < 2 + len {
        return Decoded::Incomplete;
    }
    let p = &buf[2..2 + len];
    let m = match msg_type {
        MSG_HELLO => Message::Hello(u16_from_le(p[0], p[1])),
        MSG_KEEPALIVE => Message::Keepalive,
        MSG_KEY_DOWN => Message::KeyDown(p[0]),
        MSG_KEY_UP => Message::KeyUp(p[0]),
        MSG_KEY_STATE => {
            let keys = [p[1], p[2], p[3], p[4], p[5], p[6]];
            assert(keys@ =~= p@.subrange(1, 7));
            Message::KeyState(p[0], keys)
        },
        MSG_POINTER_ABS => Message::PointerAbs(u16_from_le(p[0], p[1]), u16_from_le(p[2], p[3])),
        MSG_POINTER_BUTTON => Message::PointerButton(p[0]),
        MSG_POINTER_WHEEL => Message::PointerWheel(i8_from_byte(p[0])),
        MSG_RELEASE_ALL => Message::ReleaseAll,
        _ => Message::GetStatus,
    };
    Decoded::Whole(m, 2 + len)
}

/// What the bridge reports about itself.
#[derive(Debug, Clone, Copy, PartialEq, Eq)]
pub struct Status {
    pub modifiers: u8,
    pub held_keys: u8,
    pub buttons: u8,
    pub hid_ok: bool,
}

impl Status {
    pub open spec fn payload(self) -> Seq<u8> {
        seq![
            self.modifiers,
            self.held_keys,
            self.buttons,
            if self.hid_ok {
                1u8
            } else {
                0u8
            },
        ]
    }

    /// The STATUS reply.
    pub fn encode(&self) -> (f: Vec<u8>)
        ensures
            f@ == frame_bytes(MSG_STATUS, self.payload()),
    {
        let ok: u8 = if self.hid_ok {
            1
        } else {
            0
        };
        let p = [self.modifiers, self.held_keys, self.buttons, ok];
        assert(p@ =~= self.payload());
        frame(MSG_STATUS, &p)
    }
}

/// The reply to an accepted HELLO.
pub fn hello_ack() -> (f: Vec<u8>)
    ensures
        f@ == frame_bytes(MSG_HELLO_ACK, crate::le::u16_le(VERSION)),
{
    frame(MSG_HELLO_ACK, &u16_to_le(VERSION))
}

/// Whether a reply acknowledges our HELLO: the right type, and our version.
pub fn is_hello_ack(msg_type: u8, payload: &[u8]) -> (b: bool)
    ensures
        b == (msg_type == MSG_HELLO_ACK && payload@ == crate::le::u16_le(VERSION)),
{
    let v = u16_to_le(VERSION);
    let b = msg_type == MSG_HELLO_ACK && payload.len() == 2 && payload[0] == v[0] && payload[1]
        == v[1];
    assert(b ==> payload@ =~= v@);
    b
}

/// The status that a reply carries: it must be a STATUS message of four
/// bytes.
pub open spec fn status_of(msg_type: u8, p: Seq<u8>) -> Option<Status> {
    if msg_type == MSG_STATUS && p.len() == 4 {
        Some(Status { modifiers: p[0], held_keys: p[1], buttons: p[2], hid_ok: p[3] != 0 })
    } else {
        None
    }
}

pub fn parse_status(msg_type: u8, payload: &[u8]) -> (r: Option<Status>)
    ensures
        r == status_of(msg_type, payload@),
{
    if msg_type != MSG_STATUS || payload.len() != 4 {
        return None;
    }
    Some(
        Status {
            modifiers: payload[0],
            held_keys: payload[1],
            buttons: payload[2],
            hid_ok: payload[3] != 0,
        },
    )
}

/// A message is read back as it was written, whatever follows it.
pub proof fn message_round_trip(m: Said, rest: Seq<u8>)
    requires
        m.wf(),
    ensures
        decoded(m.wire() + rest) == DecodedView::Whole(m, m.wire().len()),
{
    let buf = m.wire() + rest;
    let p = m.payload();
    assert(client_len(m.msg_type()) == Some(p.len()));
    assert(buf[0] == m.msg_type());
    assert(buf[1] == p.len());
    assert(buf.subrange(2, 2 + p.len() as int) =~= p);
    match m {
        Said::Hello(v) => crate::le::u16_round_trip(v),
        Said::KeyState(_, keys) => {
            assert(p.subrange(1, 7) =~= keys);
        },
        Said::PointerAbs(x, y) => {
            crate::le::u16_round_trip(x);
            crate::le::u16_round_trip(y);
            assert(p[2] == crate::le::u16_le(y)[0]);
            assert(p[3] == crate::le::u16_le(y)[1]);
        },
        Said::PointerWheel(d) => crate::le::i8_round_trip(d),
        _ => {},
    }
}

/// Bytes that arrive later never change what has been read: a message that
/// is whole stays that message, and what is malformed stays malformed.
pub proof fn more_bytes_change_nothing(buf: Seq<u8>, rest: Seq<u8>)
    ensures
        decoded(buf) !is Incomplete ==> decoded(buf + rest) == decoded(buf),
{
    if buf.len() >= 2 {
        assert((buf + rest)[0] == buf[0]);
        assert((buf + rest)[1] == buf[1]);
        if decoded(buf) is Whole {
            let n = client_len(buf[0])->0 as int;
            assert((buf + rest).subrange(2, 2 + n) =~= buf.subrange(2, 2 + n));
        }
    }
}

/// A status is read back as it was written.
pub proof fn status_round_trip(s: Status)
    ensures
        status_of(MSG_STATUS, s.payload()) == Some(s),
{
}

} // verus!
