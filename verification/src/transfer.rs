//! Encoding one complete transfer as a frame sequence.

use vstd::prelude::*;

use crate::clipframe::{frame, FRAME_LEN, MAX_PAYLOAD, T_DATA, T_END, T_START};
use crate::le::u32_to_le;

verus! {

/// How many DATA frames carry `len` bytes.
pub open spec fn chunk_count(len: nat) -> nat {
    ((len + (MAX_PAYLOAD - 1)) / (MAX_PAYLOAD as int)) as nat
}

/// The bytes of DATA frame `i`, counted from 0: full frames, then the rest.
pub open spec fn chunk(data: Seq<u8>, i: int) -> Seq<u8> {
    data.subrange(
        i * MAX_PAYLOAD,
        if (i + 1) * MAX_PAYLOAD <= data.len() {
            (i + 1) * MAX_PAYLOAD
        } else {
            data.len() as int
        },
    )
}

/// The sequence number of frame `i` of a transfer.
pub open spec fn seq_of(i: int) -> u16 {
    (i % 0x1_0000) as u16
}

/// The payload of a START frame.
pub open spec fn start_payload(kind: u8, len: nat) -> Seq<u8> {
    seq![kind] + crate::le::u32_le(len as u32)
}

/// Frame `i` of the transfer of `data`.
pub open spec fn transfer_frame(kind: u8, data: Seq<u8>, i: int) -> Seq<u8> {
    if i == 0 {
        crate::clipframe::frame_bytes(T_START, 0, start_payload(kind, data.len()))
    } else if i <= chunk_count(data.len()) {
        crate::clipframe::frame_bytes(T_DATA, seq_of(i), chunk(data, i - 1))
    } else {
        crate::clipframe::frame_bytes(T_END, seq_of(i), crate::le::u32_le(data.len() as u32))
    }
}

/// All frames of the transfer of `data`: START, the DATA frames, END.
pub open spec fn transfer_frames(kind: u8, data: Seq<u8>) -> Seq<Seq<u8>> {
    Seq::new(chunk_count(data.len()) + 2, |i: int| transfer_frame(kind, data, i))
}

/// The bytes of each frame of a list.
pub open spec fn frames_bytes(frames: Seq<[u8; FRAME_LEN]>) -> Seq<Seq<u8>> {
    frames.map_values(|f: [u8; FRAME_LEN]| f@)
}

/// Encode one complete transfer as a frame sequence.
pub fn encode_transfer(kind: u8, data: &[u8]) -> (out: Vec<[u8; FRAME_LEN]>)
    ensures
        frames_bytes(out@) == transfer_frames(kind, data@),
{
    let mut out: Vec<[u8; FRAME_LEN]> = Vec::new();
    let mut seq: u16 = 0;
    let total = u32_to_le(data.len() as u32);
    let start = [kind, total[0], total[1], total[2], total[3]];
    assert(start@ =~= start_payload(kind, data@.len()));
    out.push(frame(T_START, seq, &start));
    let ghost n = chunk_count(data@.len());
    let mut pos: usize = 0;
    while pos < data.len()
        invariant
            n == chunk_count(data@.len()),
            1 <= out@.len() <= n + 1,
            seq == seq_of(out@.len() - 1),
            pos <= data@.len(),
            pos == data@.len() || pos == (out@.len() - 1) * MAX_PAYLOAD,
            pos == data@.len() ==> out@.len() == n + 1,
            forall|i: int|
                0 <= i < out@.len() ==> (#[trigger] out@[i])@ == transfer_frame(kind, data@, i),
        decreases data.len() - pos,
    {
        let next: usize = if data.len() - pos > MAX_PAYLOAD {
            pos + MAX_PAYLOAD
        } else {
            data.len()
        };
        seq = seq.wrapping_add(1);
        let ghost i = out@.len() as int;
        assert(i <= n);
        assert(seq == seq_of(i));
        assert(data@.subrange(pos as int, next as int) =~= chunk(data@, i - 1));
        out.push(frame(T_DATA, seq, &data[pos..next]));
        pos = next;
    }
    seq = seq.wrapping_add(1);
    out.push(frame(T_END, seq, &total));
    proof {
        let frames = transfer_frames(kind, data@);
        assert(out@.len() == frames.len());
        assert forall|i: int| 0 <= i < out@.len() implies frames_bytes(out@)[i] == frames[i] by {
            assert(out@[i]@ == transfer_frame(kind, data@, i));
        }
        assert(frames_bytes(out@) =~= frames);
    }
    out
}

} // verus!
