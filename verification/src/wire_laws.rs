//! What both channels look like on the wire, byte by byte, and what is made
//! of any bytes that arrive.

use vstd::prelude::*;

use crate::clipframe::Offer;
use crate::protocol::{DecodedView, Message, Said, Status};
use crate::reassembly::{Fed, ReassemblerView};

verus! {

// --- the input channel ----------------------------------------------------

/// Every message is its type, the length of its payload, and the payload.
pub proof fn messages_on_the_wire(m: Said)
    requires
        m.wf(),
    ensures
        ({
            let w = m.wire();
            &&& w.len() >= 2
            &&& w[1] == w.len() - 2
            &&& match m {
                Said::Hello(v) => w.len() == 4 && w[0] == 0x01 && w[2] + 256 * w[3] == v,
                Said::Keepalive => w.len() == 2 && w[0] == 0x03,
                Said::KeyDown(u) => w.len() == 3 && w[0] == 0x10 && w[2] == u,
                Said::KeyUp(u) => w.len() == 3 && w[0] == 0x11 && w[2] == u,
                Said::KeyState(mods, keys) => w.len() == 9 && w[0] == 0x12 && w[2] == mods
                    && forall|i: int| 0 <= i < 6 ==> w[3 + i] == #[trigger] keys[i],
                Said::PointerAbs(x, y) => w.len() == 6 && w[0] == 0x20 && w[2] + 256 * w[3] == x
                    && w[4] + 256 * w[5] == y,
                Said::PointerButton(b) => w.len() == 3 && w[0] == 0x21 && w[2] == b,
                Said::PointerWheel(d) => w.len() == 3 && w[0] == 0x22 && w[2] == if d >= 0 {
                    d as int
                } else {
                    256 + d
                },
                Said::ReleaseAll => w.len() == 2 && w[0] == 0x30,
                Said::GetStatus => w.len() == 2 && w[0] == 0x40,
            }
        }),
{
}

/// A message says on the wire what it holds: its type, the length of what
/// follows, and that, numbers with the low byte first and steps down
/// counted back from 256.
pub proof fn messages_say_what_they_hold(m: Message)
    ensures
        ({
            let w = m@.wire();
            match m {
                Message::Hello(v) => w.len() == 4 && w[0] == 0x01 && w[1] == 2 && w[2] + 256 * w[3]
                    == v,
                Message::Keepalive => w == seq![0x03u8, 0],
                Message::KeyDown(u) => w == seq![0x10u8, 1, u],
                Message::KeyUp(u) => w == seq![0x11u8, 1, u],
                Message::KeyState(b, k) => w == seq![
                    0x12u8, 7, b, k@[0], k@[1], k@[2], k@[3], k@[4], k@[5],
                ],
                Message::PointerAbs(x, y) => w.len() == 6 && w[0] == 0x20 && w[1] == 4 && w[2] + 256
                    * w[3] == x && w[4] + 256 * w[5] == y,
                Message::PointerButton(b) => w == seq![0x21u8, 1, b],
                Message::PointerWheel(d) => w.len() == 3 && w[0] == 0x22 && w[1] == 1 && w[2]
                    == if d < 0 {
                    256 + d
                } else {
                    d as int
                },
                Message::ReleaseAll => w == seq![0x30u8, 0],
                Message::GetStatus => w == seq![0x40u8, 0],
            }
        }),
{
    let w = m@.wire();
    messages_on_the_wire(m@);
    match m {
        Message::KeyState(b, k) => {
            assert(w =~= seq![0x12u8, 7, b, k@[0], k@[1], k@[2], k@[3], k@[4], k@[5]]);
        },
        _ => {},
    }
}

/// The headers that a client's messages can have: the type, and the one
/// length that it goes with.
pub open spec fn known_header(t: u8, len: u8) -> bool {
    seq![
        (0x01u8, 2u8),
        (0x03u8, 0u8),
        (0x10u8, 1u8),
        (0x11u8, 1u8),
        (0x12u8, 7u8),
        (0x20u8, 4u8),
        (0x21u8, 1u8),
        (0x22u8, 1u8),
        (0x30u8, 0u8),
        (0x40u8, 0u8),
    ].contains((t, len))
}

/// A header that no message has is found out at once; with a known one the
/// bridge waits for the whole message, and then reads exactly the message
/// that those bytes write.
pub proof fn any_bytes_are_read_or_refused(buf: Seq<u8>)
    ensures
        buf.len() < 2 ==> crate::protocol::decoded(buf) is Incomplete,
        buf.len() >= 2 && !known_header(buf[0], buf[1]) ==> crate::protocol::decoded(buf)
            is Malformed,
        buf.len() >= 2 && known_header(buf[0], buf[1]) && buf.len() < 2 + buf[1]
            ==> crate::protocol::decoded(buf) is Incomplete,
        buf.len() >= 2 && known_header(buf[0], buf[1]) && buf.len() >= 2 + buf[1]
            ==> crate::protocol::decoded(buf) is Whole,
        crate::protocol::decoded(buf) matches DecodedView::Whole(m, n) ==> {
            &&& m.wf()
            &&& n == 2 + buf[1]
            &&& m.wire() == buf.take(n as int)
        },
{
    let h = seq![
        (0x01u8, 2u8),
        (0x03u8, 0u8),
        (0x10u8, 1u8),
        (0x11u8, 1u8),
        (0x12u8, 7u8),
        (0x20u8, 4u8),
        (0x21u8, 1u8),
        (0x22u8, 1u8),
        (0x30u8, 0u8),
        (0x40u8, 0u8),
    ];
    if buf.len() >= 2 {
        let p = (buf[0], buf[1]);
        assert(h[0] == (0x01u8, 2u8) && h[1] == (0x03u8, 0u8) && h[2] == (0x10u8, 1u8) && h[3] == (
            0x11u8,
            1u8,
        ) && h[4] == (0x12u8, 7u8) && h[5] == (0x20u8, 4u8) && h[6] == (0x21u8, 1u8) && h[7] == (
            0x22u8,
            1u8,
        ) && h[8] == (0x30u8, 0u8) && h[9] == (0x40u8, 0u8));
        assert(h.contains(p) ==> crate::protocol::client_len(buf[0]) == Some(buf[1] as nat));
        assert(crate::protocol::client_len(buf[0]) == Some(buf[1] as nat) ==> h.contains(p)) by {
            assert(h.contains(h[0]) && h.contains(h[1]) && h.contains(h[2]) && h.contains(h[3])
                && h.contains(h[4]) && h.contains(h[5]) && h.contains(h[6]) && h.contains(h[7])
                && h.contains(h[8]) && h.contains(h[9]));
        }
        if let DecodedView::Whole(m, n) = crate::protocol::decoded(buf) {
            lemma_written_back(buf, m, n);
        }
    }
}

proof fn lemma_written_back(buf: Seq<u8>, m: Said, n: nat)
    requires
        crate::protocol::decoded(buf) == DecodedView::Whole(m, n),
    ensures
        m.wf(),
        m.wire() == buf.take(n as int),
{
    let p = buf.subrange(2, n as int);
    match m {
        Said::Hello(_) => crate::le::u16_is_written_low_byte_first(0, p[0], p[1]),
        Said::PointerAbs(_, _) => {
            crate::le::u16_is_written_low_byte_first(0, p[0], p[1]);
            crate::le::u16_is_written_low_byte_first(0, p[2], p[3]);
        },
        Said::PointerWheel(_) => crate::le::steps_are_twos_complement(0, p[0]),
        _ => {},
    }
    assert(m.payload() =~= p);
    assert(m.wire() =~= buf.take(n as int));
}

/// A STATUS is four bytes: modifiers, held keys, buttons, and whether
/// reports go through; any other reply is none.
pub proof fn status_on_the_wire(s: Status, t: u8, p: Seq<u8>)
    ensures
        s.payload().len() == 4,
        s.payload()[0] == s.modifiers,
        s.payload()[1] == s.held_keys,
        s.payload()[2] == s.buttons,
        s.payload()[3] == 1 <==> s.hid_ok,
        s.payload()[3] == 0 <==> !s.hid_ok,
        crate::protocol::status_of(t, p) is Some <==> t == 0x41 && p.len() == 4,
        crate::protocol::status_of(t, p) matches Some(r) ==> r.modifiers == p[0] && r.held_keys
            == p[1] && r.buttons == p[2] && (r.hid_ok <==> p[3] != 0),
{
}

// --- the clipboard channel ------------------------------------------------

/// A frame is 1024 bytes: its type, a zero, the sequence number and the
/// payload length (low byte first), the payload, and zeros.
pub proof fn frames_on_the_wire(t: u8, seq: u16, payload: Seq<u8>)
    requires
        payload.len() <= 1018,
    ensures
        ({
            let f = crate::clipframe::frame_bytes(t, seq, payload);
            &&& f.len() == 1024
            &&& f[0] == t
            &&& f[1] == 0
            &&& f[2] + 256 * f[3] == seq
            &&& f[4] + 256 * f[5] == payload.len()
            &&& forall|i: int| 0 <= i < payload.len() ==> f[6 + i] == #[trigger] payload[i]
            &&& forall|i: int| 6 + payload.len() <= i < 1024 ==> #[trigger] f[i] == 0
        }),
{
    reveal(crate::clipframe::frame_bytes);
    crate::le::u16_is_written_low_byte_first(seq, 0, 0);
    crate::le::u16_is_written_low_byte_first(payload.len() as u16, 0, 0);
}

/// Any 1024 bytes are a frame unless the length that they declare does not
/// fit in one; what they say stands where a frame has it.
pub proof fn any_frame_is_parsed(f: Seq<u8>)
    requires
        f.len() == 1024,
    ensures
        crate::clipframe::parsed(f) is Some <==> f[4] + 256 * f[5] <= 1018,
        crate::clipframe::parsed(f) matches Some(p) ==> {
            &&& p.t == f[0]
            &&& p.seq == f[2] + 256 * f[3]
            &&& p.payload.len() == f[4] + 256 * f[5]
            &&& forall|i: int| 0 <= i < p.payload.len() ==> #[trigger] p.payload[i] == f[6 + i]
        },
{
    crate::le::u16_is_written_low_byte_first(0, f[2], f[3]);
    crate::le::u16_is_written_low_byte_first(0, f[4], f[5]);
}

/// An offer is its kind, its size, its number of items and its id.
pub proof fn offers_on_the_wire(o: Offer)
    ensures
        ({
            let b = crate::clipframe::offer_payload(o);
            &&& b.len() == 11
            &&& b[0] == o.kind
            &&& b[1] + 256 * b[2] + 65536 * b[3] + 16777216 * b[4] == o.total
            &&& b[5] + 256 * b[6] == o.items
            &&& b[7] + 256 * b[8] + 65536 * b[9] + 16777216 * b[10] == o.id
        }),
{
    let b = crate::clipframe::offer_payload(o);
    crate::le::u32_is_written_low_byte_first(o.total, 0, 0, 0, 0);
    crate::le::u16_is_written_low_byte_first(o.items, 0, 0);
    crate::le::u32_is_written_low_byte_first(o.id, 0, 0, 0, 0);
    assert(b[1] == crate::le::u32_le(o.total)[0]);
    assert(b[5] == crate::le::u16_le(o.items)[0]);
    assert(b[7] == crate::le::u32_le(o.id)[0]);
}

/// Only an ACK of four bytes acknowledges, and it does so for the count
/// that it carries.
pub proof fn only_acks_acknowledge(f: Seq<u8>)
    requires
        f.len() == 1024,
    ensures
        crate::clipframe::acked(f) is Some <==> f[0] == 0x14 && f[4] == 4 && f[5] == 0,
        crate::clipframe::acked(f) matches Some(n) ==> n == f[6] + 256 * f[7] + 65536 * f[8]
            + 16777216 * f[9],
{
    any_frame_is_parsed(f);
    crate::le::u32_is_written_low_byte_first(0, f[6], f[7], f[8], f[9]);
}

/// A transfer is START, DATA frames and END, numbered from 0. START has the
/// kind and the size, END the size again, and every DATA frame but the last
/// is full, with the next bytes of the content.
pub proof fn transfers_on_the_wire(kind: u8, data: Seq<u8>, i: int)
    requires
        data.len() <= u32::MAX,
        0 <= i < crate::transfer::transfer_frames(kind, data).len(),
    ensures
        ({
            let frames = crate::transfer::transfer_frames(kind, data);
            let f = frames[i];
            let last = frames.len() - 1;
            &&& f.len() == 1024
            &&& f[2] + 256 * f[3] == i % 65536
            &&& 1018 * (last - 2) < data.len() <= 1018 * (last - 1) || (data.len() == 0 && last
                == 1)
            &&& i == 0 ==> f[0] == 0x10 && f[4] == 5 && f[5] == 0 && f[6] == kind && f[7] + 256
                * f[8] + 65536 * f[9] + 16777216 * f[10] == data.len()
            &&& i == last ==> f[0] == 0x12 && f[4] == 4 && f[5] == 0 && f[6] + 256 * f[7] + 65536
                * f[8] + 16777216 * f[9] == data.len()
            &&& 0 < i < last ==> {
                &&& f[0] == 0x11
                &&& f[4] + 256 * f[5] == if i < last - 1 {
                    1018
                } else {
                    data.len() - 1018 * (last - 2)
                }
                &&& forall|j: int|
                    0 <= j < f[4] + 256 * f[5] ==> #[trigger] f[6 + j] == data[1018 * (i - 1) + j]
            }
        }),
{
    let frames = crate::transfer::transfer_frames(kind, data);
    let n = crate::transfer::chunk_count(data.len()) as int;
    let last = frames.len() - 1;
    let size = crate::le::u32_le(data.len() as u32);
    assert(last == n + 1);
    assert(n == (data.len() + 1017) / 1018);
    assert(1018 * (n - 1) < data.len() <= 1018 * n || (data.len() == 0 && n == 0));
    assert(frames[i] == crate::transfer::transfer_frame(kind, data, i));
    crate::le::u32_is_written_low_byte_first(data.len() as u32, 0, 0, 0, 0);
    if i == 0 {
        let p = crate::transfer::start_payload(kind, data.len());
        frames_on_the_wire(0x10, 0, p);
        assert(p[1] == size[0] && p[2] == size[1] && p[3] == size[2] && p[4] == size[3]);
        assert(frames[i][6] == p[0] && frames[i][7] == p[1] && frames[i][8] == p[2]
            && frames[i][9] == p[3] && frames[i][10] == p[4]);
    } else if i <= n {
        let c = crate::transfer::chunk(data, i - 1);
        let from = 1018 * (i - 1);
        let to = if from + 1018 <= data.len() {
            from + 1018
        } else {
            data.len() as int
        };
        assert((i - 1) * crate::clipframe::MAX_PAYLOAD == from);
        assert((i - 1 + 1) * crate::clipframe::MAX_PAYLOAD == from + 1018);
        assert(0 <= from <= to <= data.len());
        assert(c == data.subrange(from, to));
        frames_on_the_wire(0x11, crate::transfer::seq_of(i), c);
        assert forall|j: int| 0 <= j < c.len() implies #[trigger] frames[i][6 + j] == data[1018 * (i
            - 1) + j] by {
            assert(frames[i][6 + j] == c[j]);
        }
    } else {
        frames_on_the_wire(0x12, crate::transfer::seq_of(i), size);
        assert(frames[i][6] == size[0] && frames[i][7] == size[1] && frames[i][8] == size[2]
            && frames[i][9] == size[3]);
    }
}

/// Frames that belong to no transfer: a PING is answered, PONG and ACK are
/// taken in silence, an OFFER of eleven bytes and a PULL of four come
/// through as they were written, and a transfer in progress stays as it is.
/// So it does when a frame cannot be read or has a type that no frame has.
pub proof fn side_frames(s: ReassemblerView, f: Seq<u8>)
    requires
        f.len() == 1024,
    ensures
        ({
            let (after, said) = crate::reassembly::feed_step(s, f);
            let n = f[4] + 256 * f[5];
            let t = f[0];
            if n > 1018 {
                after == s && said is Error
            } else if t == 0x01 {
                after == s && said == Fed::Ping
            } else if t == 0x02 || t == 0x14 {
                after == s && said == Fed::Nothing
            } else if t == 0x13 {
                after.active is None && after.data_frames == s.data_frames && said == Fed::Nothing
            } else if t == 0x20 {
                &&& after == s
                &&& n != 11 ==> said is Error
                &&& n == 11 ==> (said matches Fed::Offer(o) && {
                    &&& o.kind == f[6]
                    &&& o.total == f[7] + 256 * f[8] + 65536 * f[9] + 16777216 * f[10]
                    &&& o.items == f[11] + 256 * f[12]
                    &&& o.id == f[13] + 256 * f[14] + 65536 * f[15] + 16777216 * f[16]
                })
            } else if t == 0x21 {
                &&& after == s
                &&& n != 4 ==> said is Error
                &&& n == 4 ==> (said matches Fed::Pull(id) && id == f[6] + 256 * f[7] + 65536
                    * f[8] + 16777216 * f[9])
            } else if t != 0x10 && t != 0x11 && t != 0x12 {
                after == s && said is Error
            } else {
                true
            }
        }),
{
    any_frame_is_parsed(f);
    if crate::clipframe::parsed(f) is Some {
        let p = crate::clipframe::parsed(f)->0.payload;
        crate::le::u32_is_written_low_byte_first(0, f[7], f[8], f[9], f[10]);
        crate::le::u16_is_written_low_byte_first(0, f[11], f[12]);
        crate::le::u32_is_written_low_byte_first(0, f[13], f[14], f[15], f[16]);
        crate::le::u32_is_written_low_byte_first(0, f[6], f[7], f[8], f[9]);
        if p.len() == 11 {
            assert(p[0] == f[6] && p[1] == f[7] && p[2] == f[8] && p[3] == f[9] && p[4] == f[10]
                && p[5] == f[11] && p[6] == f[12] && p[7] == f[13] && p[8] == f[14] && p[9]
                == f[15] && p[10] == f[16]);
        }
        if p.len() == 4 {
            assert(p[0] == f[6] && p[1] == f[7] && p[2] == f[8] && p[3] == f[9]);
        }
    }
}

/// Frames of a transfer. START begins one with nothing taken in, and drops
/// any other, unless it is malformed, which changes nothing, or announces
/// more than 64 MiB, which leaves no transfer. DATA adds its bytes when it is
/// next in sequence and within what was announced; else the transfer is
/// dropped. END delivers exactly the bytes taken in, under the announced
/// kind, when it is next in sequence and both lengths agree; it always ends
/// the transfer. Without a transfer neither does anything.
pub proof fn transfer_frames_are_taken_in(s: ReassemblerView, f: Seq<u8>)
    requires
        f.len() == 1024,
        s.wf(),
        f[4] + 256 * f[5] <= 1018,
        0x10 <= f[0] <= 0x12,
    ensures
        ({
            let (after, said) = crate::reassembly::feed_step(s, f);
            let n = f[4] + 256 * f[5];
            let seq = f[2] + 256 * f[3];
            if f[0] == 0x10 {
                let total = f[7] + 256 * f[8] + 65536 * f[9] + 16777216 * f[10];
                if n != 5 {
                    after == s && said is Error
                } else if total > 67108864 {
                    after.active is None && said is Error
                } else {
                    &&& said == Fed::Nothing
                    &&& after.data_frames == 0
                    &&& after.active matches Some(a) && a.kind == f[6] && a.total == total
                        && a.last_seq == seq && a.data.len() == 0
                }
            } else if s.active is None {
                after == s && said is Error
            } else {
                let a = s.active->0;
                let next = seq == (a.last_seq + 1) % 65536;
                if f[0] == 0x11 {
                    if next && a.data.len() + n <= a.total {
                        &&& said == Fed::Progress(after.data_frames)
                        &&& s.data_frames < u32::MAX ==> after.data_frames == s.data_frames + 1
                        &&& after.active matches Some(b) && {
                            &&& b.kind == a.kind
                            &&& b.total == a.total
                            &&& b.last_seq == seq
                            &&& b.data.len() == a.data.len() + n
                            &&& forall|i: int|
                                0 <= i < a.data.len() ==> #[trigger] b.data[i] == a.data[i]
                            &&& forall|i: int|
                                0 <= i < n ==> #[trigger] b.data[a.data.len() + i] == f[6 + i]
                        }
                    } else {
                        after.active is None && said is Error
                    }
                } else {
                    let size = f[6] + 256 * f[7] + 65536 * f[8] + 16777216 * f[9];
                    &&& after.active is None
                    &&& if next && n == 4 && size == a.total && a.data.len() == a.total {
                        said == Fed::Complete(a.kind, a.data)
                    } else {
                        said is Error
                    }
                }
            }
        }),
{
    any_frame_is_parsed(f);
    let p = crate::clipframe::parsed(f)->0.payload;
    crate::le::u32_is_written_low_byte_first(0, f[7], f[8], f[9], f[10]);
    crate::le::u32_is_written_low_byte_first(0, f[6], f[7], f[8], f[9]);
    if p.len() == 5 {
        assert(p[0] == f[6] && p[1] == f[7] && p[2] == f[8] && p[3] == f[9] && p[4] == f[10]);
    }
    if p.len() == 4 {
        assert(p[0] == f[6] && p[1] == f[7] && p[2] == f[8] && p[3] == f[9]);
    }
    if s.active is Some && f[0] == 0x11 {
        let a = s.active->0;
        let b = a.data + p;
        assert forall|i: int| 0 <= i < p.len() implies #[trigger] b[a.data.len() + i] == f[6
            + i] by {
            assert(b[a.data.len() + i] == p[i]);
        }
    }
}

/// What is wrong with a frame, in words.
pub proof fn faults_in_words(s: ReassemblerView, f: Seq<u8>)
    requires
        f.len() == 1024,
        s.wf(),
    ensures
        ({
            let said = crate::reassembly::feed_step(s, f).1;
            let n = f[4] + 256 * f[5];
            let t = f[0];
            let a = s.active->0;
            let next = f[2] + 256 * f[3] == (a.last_seq + 1) % 65536;
            said matches Fed::Error(e) ==> {
                &&& n > 1018 ==> e == "unparseable frame"@
                &&& n <= 1018 && t == 0x20 ==> e == "bad OFFER payload"@
                &&& n <= 1018 && t == 0x21 ==> e == "bad PULL payload"@
                &&& n <= 1018 && t == 0x10 && n != 5 ==> e == "bad START payload"@
                &&& n <= 1018 && t == 0x10 && n == 5 ==> e == "transfer too large"@
                &&& n <= 1018 && t == 0x11 && s.active is None ==> e == "DATA without START"@
                &&& n <= 1018 && t == 0x11 && s.active is Some && !next ==> e == "sequence gap"@
                &&& n <= 1018 && t == 0x11 && s.active is Some && next ==> e == "overrun"@
                &&& n <= 1018 && t == 0x12 && s.active is None ==> e == "END without START"@
                &&& n <= 1018 && t == 0x12 && s.active is Some && !next ==> e
                    == "sequence gap at END"@
                &&& n <= 1018 && t == 0x12 && s.active is Some && next ==> e
                    == "length mismatch at END"@
                &&& n <= 1018 && !(0x10 <= t <= 0x12) && t != 0x20 && t != 0x21 ==> e
                    == "unknown frame type"@
            }
        }),
{
    any_frame_is_parsed(f);
}

} // verus!
