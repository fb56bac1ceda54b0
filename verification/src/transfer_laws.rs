//! What sending and receiving guarantee together.

use vstd::prelude::*;

use crate::clipframe::{
    Offer, MAX_PAYLOAD, MAX_TRANSFER, T_ABORT, T_ACK, T_DATA, T_END, T_OFFER, T_PING, T_PONG,
    T_PULL, T_START,
};
use crate::reassembly::{Fed, ReassemblerView, TransferView};

verus! {

/// A receiver fed a list of frames: where it ends up, and what it reports
/// on each frame.
pub open spec fn feed_all(
    s: ReassemblerView,
    frames: Seq<Seq<u8>>,
) -> (ReassemblerView, Seq<Fed>)
    decreases frames.len(),
{
    if frames.len() == 0 {
        (s, Seq::empty())
    } else {
        let before = feed_all(s, frames.drop_last());
        let step = crate::reassembly::feed_step(before.0, frames.last());
        (step.0, before.1.push(step.1))
    }
}

/// What a receiver reports on the frames of one transfer: nothing, a count
/// for each DATA frame, and then the whole content.
pub open spec fn transfer_reports(kind: u8, data: Seq<u8>) -> Seq<Fed> {
    let n = crate::transfer::chunk_count(data.len());
    Seq::new(
        n + 2,
        |i: int|
            if i == 0 {
                Fed::Nothing
            } else if i <= n {
                Fed::Progress(i as u32)
            } else {
                Fed::Complete(kind, data)
            },
    )
}

/// How many bytes the first `k` DATA frames carry.
spec fn carried(data: Seq<u8>, k: int) -> int {
    if k * MAX_PAYLOAD <= data.len() {
        k * MAX_PAYLOAD
    } else {
        data.len() as int
    }
}

/// A receiver in the middle of a transfer, after `k` DATA frames.
spec fn midway(kind: u8, data: Seq<u8>, k: int) -> ReassemblerView {
    ReassemblerView {
        active: Some(
            TransferView {
                kind,
                total: data.len() as u32,
                last_seq: crate::transfer::seq_of(k),
                data: data.take(carried(data, k)),
            },
        ),
        data_frames: k as u32,
    }
}

proof fn lemma_midway(s: ReassemblerView, kind: u8, data: Seq<u8>, k: int)
    requires
        data.len() <= MAX_TRANSFER,
        0 <= k <= crate::transfer::chunk_count(data.len()),
    ensures
        feed_all(s, crate::transfer::transfer_frames(kind, data).take(k + 1)) == (
            midway(kind, data, k),
            transfer_reports(kind, data).take(k + 1),
        ),
    decreases k,
{
    let frames = crate::transfer::transfer_frames(kind, data);
    let reports = transfer_reports(kind, data);
    let prefix = frames.take(k + 1);
    assert(prefix.drop_last() =~= frames.take(k));
    assert(reports.take(k + 1) =~= reports.take(k).push(reports[k]));
    if k == 0 {
        let b = crate::transfer::start_payload(kind, data.len());
        crate::clipframe::frame_round_trip(T_START, 0, b);
        crate::le::u32_round_trip(data.len() as u32);
        assert(b[1] == crate::le::u32_le(data.len() as u32)[0]);
        assert(frames.take(0) =~= Seq::<Seq<u8>>::empty());
        assert(feed_all(s, frames.take(0)) == (s, Seq::<Fed>::empty()));
        assert(reports.take(0) =~= Seq::<Fed>::empty());
        assert(data.take(0) =~= Seq::<u8>::empty());
    } else {
        lemma_midway(s, kind, data, k - 1);
        let c = crate::transfer::chunk(data, k - 1);
        crate::clipframe::frame_round_trip(T_DATA, crate::transfer::seq_of(k), c);
        assert(data.take(carried(data, k - 1)) + c =~= data.take(carried(data, k)));
    }
}

/// Whatever a receiver was doing, feeding it the frames of a transfer of at
/// most `MAX_TRANSFER` bytes reports each DATA frame with its count and, on
/// the last frame, exactly the kind and the bytes that were sent.
pub proof fn transfer_round_trip(s: ReassemblerView, kind: u8, data: Seq<u8>)
    requires
        data.len() <= MAX_TRANSFER,
    ensures
        feed_all(s, crate::transfer::transfer_frames(kind, data)) == (
            ReassemblerView {
                active: None,
                data_frames: crate::transfer::chunk_count(data.len()) as u32,
            },
            transfer_reports(kind, data),
        ),
        transfer_reports(kind, data).last() == Fed::Complete(kind, data),
{
    let n = crate::transfer::chunk_count(data.len()) as int;
    let frames = crate::transfer::transfer_frames(kind, data);
    let reports = transfer_reports(kind, data);
    lemma_midway(s, kind, data, n);
    crate::clipframe::frame_round_trip(
        T_END,
        crate::transfer::seq_of(n + 1),
        crate::le::u32_le(data.len() as u32),
    );
    crate::le::u32_round_trip(data.len() as u32);
    assert(frames.drop_last() =~= frames.take(n + 1));
    assert(carried(data, n) == data.len());
    assert(data.take(data.len() as int) =~= data);
    let end = frames[n + 1];
    assert(frames.last() == end);
    let step = crate::reassembly::feed_step(midway(kind, data, n), end);
    assert(step.1 == Fed::Complete(kind, data));
    assert(step.0 == (ReassemblerView { active: None, data_frames: n as u32 }));
    assert(reports[n + 1] == Fed::Complete(kind, data));
    assert(reports.take(n + 1).push(reports[n + 1]) =~= reports);
    assert(feed_all(s, frames).0 == step.0);
    assert(feed_all(s, frames).1 == reports);
}

/// A transfer of more than `MAX_TRANSFER` bytes (that a START frame can
/// still announce) is refused at its START frame, and drops the transfer in
/// progress.
pub proof fn oversize_transfer_is_refused(s: ReassemblerView, kind: u8, data: Seq<u8>)
    requires
        MAX_TRANSFER < data.len() <= u32::MAX,
    ensures
        crate::reassembly::feed_step(s, crate::transfer::transfer_frames(kind, data)[0]) == (
            s.idle(),
            Fed::Error("transfer too large"@),
        ),
{
    let b = crate::transfer::start_payload(kind, data.len());
    crate::clipframe::frame_round_trip(T_START, 0, b);
    crate::le::u32_round_trip(data.len() as u32);
    assert(b[1] == crate::le::u32_le(data.len() as u32)[0]);
}

/// A DATA or END frame out of sequence drops the transfer in progress and
/// delivers nothing.
pub proof fn sequence_gap_drops_transfer(
    s: ReassemblerView,
    a: TransferView,
    t: u8,
    seq: u16,
    payload: Seq<u8>,
)
    requires
        s.active == Some(a),
        t == T_DATA || t == T_END,
        seq != crate::reassembly::next_seq(a.last_seq),
        payload.len() <= MAX_PAYLOAD,
    ensures
        crate::reassembly::feed_step(s, crate::clipframe::frame_bytes(t, seq, payload)) == (
            s.idle(),
            Fed::Error(
                if t == T_DATA {
                    "sequence gap"@
                } else {
                    "sequence gap at END"@
                },
            ),
        ),
{
    crate::clipframe::frame_round_trip(t, seq, payload);
}

/// An END frame delivers a transfer only when the bytes that arrived are as
/// many as START announced and END confirms; either way the transfer is
/// over.
pub proof fn end_delivers_only_matching_lengths(s: ReassemblerView, raw: Seq<u8>)
    requires
        s.wf(),
        crate::clipframe::parsed(raw) matches Some(p) && p.t == T_END,
    ensures
        crate::reassembly::feed_step(s, raw).0.active is None,
        crate::reassembly::feed_step(s, raw).1 matches Fed::Complete(kind, data) ==> (
        s.active matches Some(a) && kind == a.kind && data == a.data && data.len() == a.total
            && crate::clipframe::payload_u32(crate::clipframe::parsed(raw)->0.payload) == a.total),
{
}

/// PING, PONG, ACK, OFFER and PULL leave a transfer in progress alone;
/// offers and pulls come through as they were sent.
pub proof fn side_frames_leave_transfer_alone(s: ReassemblerView, o: Offer, id: u32, count: u32)
    ensures
        crate::reassembly::feed_step(
            s,
            crate::clipframe::frame_bytes(T_PING, 0, Seq::empty()),
        ) == (s, Fed::Ping),
        crate::reassembly::feed_step(
            s,
            crate::clipframe::frame_bytes(T_PONG, 0, Seq::empty()),
        ) == (s, Fed::Nothing),
        crate::reassembly::feed_step(
            s,
            crate::clipframe::frame_bytes(T_ACK, 0, crate::le::u32_le(count)),
        ) == (s, Fed::Nothing),
        crate::reassembly::feed_step(
            s,
            crate::clipframe::frame_bytes(T_OFFER, 0, crate::clipframe::offer_payload(o)),
        ) == (s, Fed::Offer(o)),
        crate::reassembly::feed_step(
            s,
            crate::clipframe::frame_bytes(T_PULL, 0, crate::le::u32_le(id)),
        ) == (s, Fed::Pull(id)),
{
    crate::clipframe::frame_round_trip(T_PING, 0, Seq::empty());
    crate::clipframe::frame_round_trip(T_PONG, 0, Seq::empty());
    crate::clipframe::frame_round_trip(T_ACK, 0, crate::le::u32_le(count));
    crate::clipframe::frame_round_trip(T_OFFER, 0, crate::clipframe::offer_payload(o));
    crate::clipframe::frame_round_trip(T_PULL, 0, crate::le::u32_le(id));
    crate::clipframe::offer_round_trip(o);
    crate::le::u32_round_trip(id);
}

/// Either side can abort: an ABORT frame drops the transfer in progress.
pub proof fn abort_drops_transfer(s: ReassemblerView, seq: u16, payload: Seq<u8>)
    requires
        payload.len() <= MAX_PAYLOAD,
    ensures
        crate::reassembly::feed_step(s, crate::clipframe::frame_bytes(T_ABORT, seq, payload)) == (
            s.idle(),
            Fed::Nothing,
        ),
{
    crate::clipframe::frame_round_trip(T_ABORT, seq, payload);
}

} // verus!
