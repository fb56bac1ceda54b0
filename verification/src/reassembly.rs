//! The receiving state machine of the clipboard channel.

use vstd::prelude::*;

use crate::clipframe::{
    parse, Offer, FRAME_LEN, MAX_TRANSFER, T_ABORT, T_ACK, T_DATA, T_END, T_OFFER, T_PING, T_PONG,
    T_PULL, T_START,
};
use crate::le::{u16_from_le, u32_from_le};

verus! {

/// A transfer in progress.
struct Transfer {
    kind: u8,
    total: u32,
    last_seq: u16,
    data: Vec<u8>,
}

/// Receiving state machine. Feed frames; a completed transfer comes back
/// as (kind, data). Sequence gaps or length mismatches drop the transfer
/// (the channel is reliable, so a gap means a peer bug, not line noise).
pub struct Reassembler {
    active: Option<Transfer>,
    data_frames: u32,
}

/// What feeding one frame led to.
pub enum FeedResult {
    /// Nothing to report.
    Nothing,
    Ping,
    /// A DATA frame landed; the count is DATA frames so far in this
    /// transfer. Receivers send an ACK every `ACK_EVERY` frames.
    Progress(u32),
    Complete(u8, Vec<u8>),
    /// The peer has something available for lazy transfer.
    Offer(Offer),
    /// The peer wants the offered batch with this id sent now.
    Pull(u32),
    Error(&'static str),
}

/// A transfer in progress: what was announced and what has arrived.
#[verifier::ext_equal]
pub struct TransferView {
    pub kind: u8,
    pub total: u32,
    pub last_seq: u16,
    pub data: Seq<u8>,
}

/// The state of a receiver.
#[verifier::ext_equal]
pub struct ReassemblerView {
    pub active: Option<TransferView>,
    pub data_frames: u32,
}

/// What feeding one frame led to, with the delivered bytes as a sequence.
#[verifier::ext_equal]
pub enum Fed {
    Nothing,
    Ping,
    Progress(u32),
    Complete(u8, Seq<u8>),
    Offer(Offer),
    Pull(u32),
    Error(Seq<char>),
}

impl View for FeedResult {
    type V = Fed;

    open spec fn view(&self) -> Fed {
        match *self {
            FeedResult::Nothing => Fed::Nothing,
            FeedResult::Ping => Fed::Ping,
            FeedResult::Progress(n) => Fed::Progress(n),
            FeedResult::Complete(kind, data) => Fed::Complete(kind, data@),
            FeedResult::Offer(o) => Fed::Offer(o),
            FeedResult::Pull(id) => Fed::Pull(id),
            FeedResult::Error(e) => Fed::Error(e@),
        }
    }
}

impl View for Reassembler {
    type V = ReassemblerView;

    closed spec fn view(&self) -> ReassemblerView {
        ReassemblerView {
            active: match self.active {
                Some(a) => Some(
                    TransferView {
                        kind: a.kind,
                        total: a.total,
                        last_seq: a.last_seq,
                        data: a.data@,
                    },
                ),
                None => None,
            },
            data_frames: self.data_frames,
        }
    }
}

impl ReassemblerView {
    /// What is announced is within the limit, and no more than that has
    /// been taken in.
    pub open spec fn wf(self) -> bool {
        self.active matches Some(a) ==> a.total <= MAX_TRANSFER && a.data.len() <= a.total
    }

    /// No transfer in progress.
    pub open spec fn idle(self) -> ReassemblerView {
        ReassemblerView { active: None, ..self }
    }
}

/// The sequence number after `seq`.
pub open spec fn next_seq(seq: u16) -> u16 {
    ((seq + 1) % 0x1_0000) as u16
}

/// A START frame announces a transfer and replaces any other.
pub open spec fn feed_start(
    s: ReassemblerView,
    p: crate::clipframe::ParsedView,
) -> (ReassemblerView, Fed) {
    let b = p.payload;
    if b.len() != 5 {
        (s, Fed::Error("bad START payload"@))
    } else {
        let total = crate::le::le_u32(b[1], b[2], b[3], b[4]);
        if total > MAX_TRANSFER {
            (s.idle(), Fed::Error("transfer too large"@))
        } else {
            (
                ReassemblerView {
                    active: Some(
                        TransferView { kind: b[0], total, last_seq: p.seq, data: Seq::empty() },
                    ),
                    data_frames: 0,
                },
                Fed::Nothing,
            )
        }
    }
}

/// A DATA frame extends the transfer, in sequence and within its total.
pub open spec fn feed_data(
    s: ReassemblerView,
    p: crate::clipframe::ParsedView,
) -> (ReassemblerView, Fed) {
    match s.active {
        None => (s, Fed::Error("DATA without START"@)),
        Some(a) => {
            let data = a.data + p.payload;
            if p.seq != next_seq(a.last_seq) {
                (s.idle(), Fed::Error("sequence gap"@))
            } else if data.len() > a.total {
                (s.idle(), Fed::Error("overrun"@))
            } else {
                let n = ((s.data_frames + 1) % 0x1_0000_0000) as u32;
                (
                    ReassemblerView {
                        active: Some(TransferView { last_seq: p.seq, data, ..a }),
                        data_frames: n,
                    },
                    Fed::Progress(n),
                )
            }
        },
    }
}

/// An END frame closes the transfer, and delivers it when sequence and
/// lengths agree.
pub open spec fn feed_end(
    s: ReassemblerView,
    p: crate::clipframe::ParsedView,
) -> (ReassemblerView, Fed) {
    let r = match s.active {
        None => Fed::Error("END without START"@),
        Some(a) => if p.seq != next_seq(a.last_seq) {
            Fed::Error("sequence gap at END"@)
        } else if p.payload.len() == 4 && crate::clipframe::payload_u32(p.payload) == a.total
            && a.data.len() == a.total {
            Fed::Complete(a.kind, a.data)
        } else {
            Fed::Error("length mismatch at END"@)
        },
    };
    (s.idle(), r)
}

/// What a receiver becomes and reports on one frame.
pub open spec fn feed_step(s: ReassemblerView, raw: Seq<u8>) -> (ReassemblerView, Fed) {
    match crate::clipframe::parsed(raw) {
        None => (s, Fed::Error("unparseable frame"@)),
        Some(p) => if p.t == T_PING {
            (s, Fed::Ping)
        } else if p.t == T_PONG || p.t == T_ACK {
            (s, Fed::Nothing)
        } else if p.t == T_ABORT {
            (s.idle(), Fed::Nothing)
        } else if p.t == T_OFFER {
            if p.payload.len() == 11 {
                (s, Fed::Offer(crate::clipframe::payload_offer(p.payload)))
            } else {
                (s, Fed::Error("bad OFFER payload"@))
            }
        } else if p.t == T_PULL {
            if p.payload.len() == 4 {
                (s, Fed::Pull(crate::clipframe::payload_u32(p.payload)))
            } else {
                (s, Fed::Error("bad PULL payload"@))
            }
        } else if p.t == T_START {
            feed_start(s, p)
        } else if p.t == T_DATA {
            feed_data(s, p)
        } else if p.t == T_END {
            feed_end(s, p)
        } else {
            (s, Fed::Error("unknown frame type"@))
        },
    }
}

impl Default for Reassembler {
    /// Nothing in progress.
    fn default() -> (r: Reassembler)
        ensures
            r@ == (ReassemblerView { active: None, data_frames: 0 }),
            r@.wf(),
    {
        Reassembler { active: None, data_frames: 0 }
    }
}

impl Reassembler {
    /// (bytes received, total bytes) of the transfer in progress, if any.
    pub fn status(&self) -> (r: Option<(usize, u32)>)
        ensures
            match self@.active {
                Some(a) => r matches Some(s) && s.0 == a.data.len() && s.1 == a.total,
                None => r is None,
            },
    {
        match &self.active {
            Some(a) => Some((a.data.len(), a.total)),
            None => None,
        }
    }

    pub fn feed(&mut self, raw: &[u8; FRAME_LEN]) -> (r: FeedResult)
        requires
            old(self)@.wf(),
        ensures
            (final(self)@, r@) == feed_step(old(self)@, raw@),
            final(self)@.wf(),
    {
        let p = match parse(raw) {
            Some(p) => p,
            None => {
                return FeedResult::Error("unparseable frame");
            },
        };
        let b = p.payload;
        if p.t == T_PING {
            FeedResult::Ping
        } else if p.t == T_PONG || p.t == T_ACK {
            // ACKs are flow control, handled by senders.
            FeedResult::Nothing
        } else if p.t == T_ABORT {
            self.active = None;
            FeedResult::Nothing
        } else if p.t == T_OFFER {
            if b.len() != 11 {
                return FeedResult::Error("bad OFFER payload");
            }
            FeedResult::Offer(
                Offer {
                    kind: b[0],
                    total: u32_from_le(b[1], b[2], b[3], b[4]),
                    items: u16_from_le(b[5], b[6]),
                    id: u32_from_le(b[7], b[8], b[9], b[10]),
                },
            )
        } else if p.t == T_PULL {
            if b.len() != 4 {
                return FeedResult::Error("bad PULL payload");
            }
            FeedResult::Pull(u32_from_le(b[0], b[1], b[2], b[3]))
        } else if p.t == T_START {
            if b.len() != 5 {
                return FeedResult::Error("bad START payload");
            }
            let total: u32 = u32_from_le(b[1], b[2], b[3], b[4]);
            if total > MAX_TRANSFER {
                self.active = None;
                return FeedResult::Error("transfer too large");
            }
            self.active = Some(
                Transfer {
                    kind: b[0],
                    total,
                    last_seq: p.seq,
                    data: Vec::with_capacity(total as usize),
                },
            );
            self.data_frames = 0;
            FeedResult::Nothing
        } else if p.t == T_DATA {
            let mut a = match self.active.take() {
                Some(a) => a,
                None => {
                    return FeedResult::Error("DATA without START");
                },
            };
            if p.seq != a.last_seq.wrapping_add(1) {
                return FeedResult::Error("sequence gap");
            }
            a.last_seq = p.seq;
            a.data.extend_from_slice(b);
            if a.data.len() as u32 > a.total {
                return FeedResult::Error("overrun");
            }
            self.active = Some(a);
            self.data_frames = self.data_frames.wrapping_add(1);
            FeedResult::Progress(self.data_frames)
        } else if p.t == T_END {
            let a = match self.active.take() {
                Some(a) => a,
                None => {
                    return FeedResult::Error("END without START");
                },
            };
            if p.seq != a.last_seq.wrapping_add(1) {
                return FeedResult::Error("sequence gap at END");
            }
            if b.len() != 4 || u32_from_le(b[0], b[1], b[2], b[3]) != a.total
                || a.data.len() as u32 != a.total {
                return FeedResult::Error("length mismatch at END");
            }
            FeedResult::Complete(a.kind, a.data)
        } else {
            FeedResult::Error("unknown frame type")
        }
    }
}

} // verus!
