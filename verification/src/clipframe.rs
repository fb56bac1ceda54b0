//! Framing for the vendor raw HID clipboard channel.
//!
//! Every frame is exactly `FRAME_LEN` bytes:
//!
//! ```text
//! byte 0     frame type
//! byte 1     flags (reserved, 0)
//! bytes 2-3  sequence number (u16 LE, wraps)
//! bytes 4-5  payload length (u16 LE, max FRAME_LEN-6)
//! bytes 6..  payload
//! ```
//!
//! A transfer is START (kind + total length), DATA frames, then END
//! (echoes the total length as a sanity check). One transfer at a time per
//! direction; either side can ABORT.

use vstd::prelude::*;

use crate::le::{u16_from_le, u16_to_le, u32_from_le, u32_to_le};

verus! {

pub const FRAME_LEN: usize = 1024;

pub const MAX_PAYLOAD: usize = FRAME_LEN - 6;

pub const T_PING: u8 = 0x01;

pub const T_PONG: u8 = 0x02;

pub const T_START: u8 = 0x10;

pub const T_DATA: u8 = 0x11;

pub const T_END: u8 = 0x12;

pub const T_ABORT: u8 = 0x13;

/// Flow control: the receiver reports how many DATA frames of the current
/// transfer it has consumed (u32 LE). The host drops the OLDEST queued HID
/// input reports when its buffer overflows, so senders keep at most
/// `ACK_WINDOW` frames in flight.
pub const T_ACK: u8 = 0x14;

/// Lazy transfers: a file copy sends only an OFFER (what is available);
/// the bytes move when the other side PULLs.
pub const T_OFFER: u8 = 0x20;

pub const T_PULL: u8 = 0x21;

pub const ACK_EVERY: u32 = 128;

pub const ACK_WINDOW: u32 = 256;

pub const KIND_TEXT: u8 = 1;

pub const KIND_PNG: u8 = 2;

/// A tar stream carrying files and/or directories with relative paths.
pub const KIND_TAR: u8 = 3;

/// Refuse absurd transfers before allocating for them.
pub const MAX_TRANSFER: u32 = 64 * 1024 * 1024;

/// Measured channel rates (bytes/s) with `FRAME_LEN`-byte reports.
pub const RATE_TO_WINDOWS: u64 = 4_000_000;

pub const RATE_TO_LINUX: u64 = 800_000;

/// What one side has available for a lazy transfer.
#[derive(Debug, Clone, Copy, PartialEq, Eq)]
pub struct Offer {
    pub kind: u8,
    pub total: u32,
    pub items: u16,
    pub id: u32,
}

/// One frame, taken apart.
pub struct Parsed<'a> {
    pub t: u8,
    pub seq: u16,
    pub payload: &'a [u8],
}

/// What a frame says.
#[verifier::ext_equal]
pub struct ParsedView {
    pub t: u8,
    pub seq: u16,
    pub payload: Seq<u8>,
}

impl<'a> View for Parsed<'a> {
    type V = ParsedView;

    open spec fn view(&self) -> ParsedView {
        ParsedView { t: self.t, seq: self.seq, payload: self.payload@ }
    }
}

/// The bytes of a frame: header, payload, zeros up to `FRAME_LEN`.
#[verifier::opaque]
pub open spec fn frame_bytes(t: u8, seq: u16, payload: Seq<u8>) -> Seq<u8> {
    seq![t, 0u8] + crate::le::u16_le(seq) + crate::le::u16_le(payload.len() as u16) + payload
        + Seq::new((MAX_PAYLOAD - payload.len()) as nat, |i: int| 0u8)
}

/// The payload length that a frame's header declares.
pub open spec fn declared_len(f: Seq<u8>) -> u16 {
    crate::le::le_u16(f[4], f[5])
}

/// What the bytes of a frame say: nothing when the declared length does not
/// fit in a frame.
pub open spec fn parsed(f: Seq<u8>) -> Option<ParsedView> {
    if declared_len(f) > MAX_PAYLOAD {
        None
    } else {
        Some(
            ParsedView {
                t: f[0],
                seq: crate::le::le_u16(f[2], f[3]),
                payload: f.subrange(6, 6 + declared_len(f)),
            },
        )
    }
}

/// The payload of an OFFER frame.
pub open spec fn offer_payload(o: Offer) -> Seq<u8> {
    seq![o.kind] + crate::le::u32_le(o.total) + crate::le::u16_le(o.items) + crate::le::u32_le(o.id)
}

/// The offer that an OFFER payload of eleven bytes writes.
pub open spec fn payload_offer(b: Seq<u8>) -> Offer {
    Offer {
        kind: b[0],
        total: crate::le::le_u32(b[1], b[2], b[3], b[4]),
        items: crate::le::le_u16(b[5], b[6]),
        id: crate::le::le_u32(b[7], b[8], b[9], b[10]),
    }
}

/// The number that the first four bytes of a payload write.
pub open spec fn payload_u32(b: Seq<u8>) -> u32 {
    crate::le::le_u32(b[0], b[1], b[2], b[3])
}

/// Rough transfer time for logs.
pub fn eta_secs(bytes: usize, rate: u64) -> (secs: u64)
    requires
        rate > 0,
    ensures
        secs == if bytes as int / rate as int >= 1 {
            bytes as int / rate as int
        } else {
            1
        },
{
    let whole: u64 = bytes as u64 / rate;
    if whole < 1 {
        1
    } else {
        whole
    }
}

pub fn frame(t: u8, seq: u16, payload: &[u8]) -> (f: [u8; FRAME_LEN])
    requires
        payload@.len() <= MAX_PAYLOAD,
    ensures
        f@ == frame_bytes(t, seq, payload@),
{
    let mut f = [0u8; FRAME_LEN];
    let s = u16_to_le(seq);
    let n = u16_to_le(payload.len() as u16);
    f[0] = t;
    f[2] = s[0];
    f[3] = s[1];
    f[4] = n[0];
    f[5] = n[1];
    let ghost header = f@.subrange(0, 6);
    let mut i: usize = 0;
    while i < payload.len()
        invariant
            payload@.len() <= MAX_PAYLOAD,
            i <= payload@.len(),
            f@.subrange(0, 6) == header,
            forall|j: int| 0 <= j < i ==> f@[6 + j] == payload@[j],
            forall|j: int| 6 + i <= j < FRAME_LEN ==> f@[j] == 0,
        decreases payload.len() - i,
    {
        f[6 + i] = payload[i];
        i += 1;
        assert(f@.subrange(0, 6) =~= header);
    }
    proof {
        reveal(frame_bytes);
        let want = frame_bytes(t, seq, payload@);
        assert(want.len() == FRAME_LEN);
        assert forall|j: int| 0 <= j < FRAME_LEN implies f@[j] == want[j] by {
            if j < 6 {
                assert(f@[j] == header[j]);
            } else if j < 6 + payload@.len() {
                assert(f@[6 + (j - 6)] == payload@[j - 6]);
            }
        }
        assert(f@ =~= want);
    }
    f
}

pub fn parse(f: &[u8; FRAME_LEN]) -> (r: Option<Parsed<'_>>)
    ensures
        match r {
            Some(p) => parsed(f@) == Some(p@),
            None => parsed(f@) is None,
        },
{
    let len: usize = u16_from_le(f[4], f[5]) as usize;
    if len > MAX_PAYLOAD {
        return None;
    }
    Some(Parsed { t: f[0], seq: u16_from_le(f[2], f[3]), payload: &f[6..6 + len] })
}

pub fn offer_frame(o: &Offer) -> (f: [u8; FRAME_LEN])
    ensures
        f@ == frame_bytes(T_OFFER, 0, offer_payload(*o)),
{
    let t = u32_to_le(o.total);
    let n = u16_to_le(o.items);
    let id = u32_to_le(o.id);
    let p = [o.kind, t[0], t[1], t[2], t[3], n[0], n[1], id[0], id[1], id[2], id[3]];
    assert(p@ =~= offer_payload(*o));
    frame(T_OFFER, 0, &p)
}

pub fn pull_frame(id: u32) -> (f: [u8; FRAME_LEN])
    ensures
        f@ == frame_bytes(T_PULL, 0, crate::le::u32_le(id)),
{
    frame(T_PULL, 0, &u32_to_le(id))
}

pub fn ack_frame(count: u32) -> (f: [u8; FRAME_LEN])
    ensures
        f@ == frame_bytes(T_ACK, 0, crate::le::u32_le(count)),
{
    frame(T_ACK, 0, &u32_to_le(count))
}

/// A frame that is its type alone.
fn bare_frame(t: u8) -> (f: [u8; FRAME_LEN])
    ensures
        f@ == frame_bytes(t, 0, Seq::empty()),
{
    let nothing: [u8; 0] = [];
    assert(nothing@ =~= Seq::<u8>::empty());
    frame(t, 0, &nothing)
}

/// The answer to a PING.
pub fn pong_frame() -> (f: [u8; FRAME_LEN])
    ensures
        f@ == frame_bytes(T_PONG, 0, Seq::empty()),
{
    bare_frame(T_PONG)
}

/// What a sender says that gives its transfer up.
pub fn abort_frame() -> (f: [u8; FRAME_LEN])
    ensures
        f@ == frame_bytes(T_ABORT, 0, Seq::empty()),
{
    bare_frame(T_ABORT)
}

/// The count that an ACK frame carries.
pub open spec fn acked(f: Seq<u8>) -> Option<u32> {
    match parsed(f) {
        Some(p) => if p.t == T_ACK && p.payload.len() == 4 {
            Some(payload_u32(p.payload))
        } else {
            None
        },
        None => None,
    }
}

pub fn parse_ack(f: &[u8; FRAME_LEN]) -> (r: Option<u32>)
    ensures
        r == acked(f@),
{
    match parse(f) {
        Some(p) => {
            if p.t == T_ACK && p.payload.len() == 4 {
                Some(u32_from_le(p.payload[0], p.payload[1], p.payload[2], p.payload[3]))
            } else {
                None
            }
        },
        None => None,
    }
}

/// Parsing a frame gives back the type, the number and the payload that it
/// was made of.
pub proof fn frame_round_trip(t: u8, seq: u16, payload: Seq<u8>)
    requires
        payload.len() <= MAX_PAYLOAD,
    ensures
        frame_bytes(t, seq, payload).len() == FRAME_LEN,
        parsed(frame_bytes(t, seq, payload)) == Some(ParsedView { t, seq, payload }),
{
    reveal(frame_bytes);
    let f = frame_bytes(t, seq, payload);
    let n = payload.len() as u16;
    crate::le::u16_round_trip(seq);
    crate::le::u16_round_trip(n);
    assert(f[2] == crate::le::u16_le(seq)[0]);
    assert(f[3] == crate::le::u16_le(seq)[1]);
    assert(f[4] == crate::le::u16_le(n)[0]);
    assert(f[5] == crate::le::u16_le(n)[1]);
    assert(f.subrange(6, 6 + n) =~= payload);
}

/// An OFFER payload reads back as the offer that it was made of.
pub proof fn offer_round_trip(o: Offer)
    ensures
        offer_payload(o).len() == 11,
        payload_offer(offer_payload(o)) == o,
{
    let b = offer_payload(o);
    crate::le::u32_round_trip(o.total);
    crate::le::u16_round_trip(o.items);
    crate::le::u32_round_trip(o.id);
    assert(b[1] == crate::le::u32_le(o.total)[0]);
    assert(b[5] == crate::le::u16_le(o.items)[0]);
    assert(b[7] == crate::le::u32_le(o.id)[0]);
}

/// An ACK frame reads back as its count, and no other frame reads as one.
pub proof fn ack_round_trip(t: u8, seq: u16, payload: Seq<u8>, count: u32)
    requires
        payload.len() <= MAX_PAYLOAD,
    ensures
        acked(frame_bytes(T_ACK, 0, crate::le::u32_le(count))) == Some(count),
        t != T_ACK ==> acked(frame_bytes(t, seq, payload)) is None,
{
    frame_round_trip(T_ACK, 0, crate::le::u32_le(count));
    frame_round_trip(t, seq, payload);
    crate::le::u32_round_trip(count);
}

} // verus!
