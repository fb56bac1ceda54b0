//! What a sender and the two receivers guarantee together.

use vstd::prelude::*;

use crate::agent::{AgentView, Control, FrameStepView, LocalStepView, PushEnd, RemoteOffer};
use crate::clipframe::Offer;
use crate::flow::{AfterAttempt, AttemptEnd, SendStep, SenderView};
use crate::helper::{ApplyStepView, CopyStepView, HelperView, PullStepView, ReportStepView};
use crate::offers::LocalOfferView;
use crate::reassembly::{Fed, ReassemblerView};
use crate::relay::{Attempt, FrameWrite, Verdict};

verus! {

/// What a sender does: START and END go out at once, a DATA frame as long
/// as fewer than 256 are unacknowledged. One that may not go out waits, and
/// after more than five seconds the transfer is given up.
pub proof fn senders_keep_a_window(s: SenderView, acked: u32, waited: u64)
    requires
        s.wf(),
    ensures
        ({
            let step = s.step(acked, waited);
            let data = 0 < s.index && s.index + 1 < s.frames;
            &&& step == SendStep::Done <==> s.index == s.frames
            &&& step is Write <==> s.index < s.frames && (!data || s.sent_data < acked + 256)
            &&& step matches SendStep::Write(i) ==> i == s.index
            &&& step == SendStep::Abort <==> data && s.sent_data >= acked + 256 && waited
                > 5_000_000_000
            &&& step == SendStep::Wait <==> data && s.sent_data >= acked + 256 && waited
                <= 5_000_000_000
            &&& s.advanced().frames == s.frames
            &&& s.advanced().index == s.index + 1
            &&& s.advanced().sent_data == s.sent_data + if data {
                1int
            } else {
                0
            }
        }),
{
}

/// Every 128th DATA frame of a transfer is acknowledged by the helper with
/// a frame that carries its count, and no other is.
pub proof fn helper_acknowledges_progress(s: HelperView, raw: Seq<u8>, n: u32)
    requires
        crate::reassembly::feed_step(s.reasm, raw).1 == Fed::Progress(n),
    ensures
        ({
            let (after, said) = s.on_report(raw);
            &&& after == (HelperView {
                reasm: crate::reassembly::feed_step(s.reasm, raw).0,
                ..s
            })
            &&& n % 128 == 0 ==> (said matches ReportStepView::Ack(m, f) && m == n && f.len()
                == 1024 && crate::clipframe::acked(f) == Some(n))
            &&& n % 128 != 0 ==> said == ReportStepView::Nothing
        }),
{
    let count = crate::le::u32_le(n);
    crate::clipframe::ack_round_trip(0, 0, Seq::empty(), n);
    crate::wire_laws::frames_on_the_wire(0x14, 0, count);
}

/// Every 128th DATA frame of a transfer is acknowledged by the agent with a
/// frame that carries its count, and no other is.
pub proof fn agent_acknowledges_progress(s: AgentView, raw: Seq<u8>, n: u32)
    requires
        crate::reassembly::feed_step(s.reasm, raw).1 == Fed::Progress(n),
    ensures
        ({
            let (after, said) = s.on_frame(raw);
            &&& after == (AgentView {
                reasm: crate::reassembly::feed_step(s.reasm, raw).0,
                ..s
            })
            &&& n % 128 == 0 ==> (said matches FrameStepView::Ack(m, f) && m == n && f.len()
                == 1024 && crate::clipframe::acked(f) == Some(n))
            &&& n % 128 != 0 ==> said == FrameStepView::Nothing
        }),
{
    let count = crate::le::u32_le(n);
    crate::clipframe::ack_round_trip(0, 0, Seq::empty(), n);
    crate::wire_laws::frames_on_the_wire(0x14, 0, count);
}

/// What the helper makes of a report that is no progress: an ACK goes to the
/// sender with the count that it carries, a PING is answered with a PONG, a
/// whole transfer is applied, an offer is told, a pull waits to be served,
/// and a fault is told. Nothing else of its memory changes.
pub proof fn helper_takes_reports(s: HelperView, raw: Seq<u8>)
    requires
        raw.len() == 1024,
    ensures
        ({
            let (reasm, fed) = crate::reassembly::feed_step(s.reasm, raw);
            let (after, said) = s.on_report(raw);
            if raw[0] == 0x14 && raw[4] == 4 && raw[5] == 0 {
                after == s && (said matches ReportStepView::Acked(n) && n == raw[6] + 256 * raw[7]
                    + 65536 * raw[8] + 16777216 * raw[9])
            } else {
                &&& after.last_sent == s.last_sent && after.last_set == s.last_set
                    && after.local_offer == s.local_offer && after.last_seq == s.last_seq
                    && after.reasm == reasm
                &&& after.pull_request == if fed is Pull {
                    Some(fed->Pull_0)
                } else {
                    s.pull_request
                }
                &&& fed == Fed::Ping ==> (said matches ReportStepView::Answer(f) && f.len() == 1024
                    && f[0] == 0x02 && forall|i: int| 1 <= i < 1024 ==> #[trigger] f[i] == 0)
                &&& fed matches Fed::Complete(k, d) ==> said == ReportStepView::Apply(k, d)
                &&& fed matches Fed::Offer(o) ==> said == ReportStepView::Offered(o)
                &&& fed matches Fed::Error(e) ==> said == ReportStepView::ProtocolError(e)
                &&& fed is Pull || fed is Nothing ==> said == ReportStepView::Nothing
            }
        }),
{
    crate::wire_laws::only_acks_acknowledge(raw);
    lemma_pong();
}

/// What the agent makes of a frame that is no progress: a PING is answered
/// with a PONG, the newest offer of the other side is remembered and told, a
/// pull is served if it names what is on offer, and a fault is told. Nothing
/// else of its memory changes.
pub proof fn agent_takes_frames(s: AgentView, raw: Seq<u8>)
    requires
        raw.len() == 1024,
    ensures
        ({
            let (reasm, fed) = crate::reassembly::feed_step(s.reasm, raw);
            let (after, said) = s.on_frame(raw);
            &&& after.last_sent == s.last_sent && after.last_set == s.last_set
                && after.local_offer == s.local_offer && after.reasm == reasm
            &&& fed matches Fed::Offer(o) ==> said == FrameStepView::Offered(o) && (
            after.remote_offer matches Some(r) && r.offer == o && !r.requested)
            &&& !(fed is Offer) ==> after.remote_offer == s.remote_offer
            &&& fed == Fed::Ping ==> (said matches FrameStepView::Answer(f) && f.len() == 1024
                && f[0] == 0x02 && forall|i: int| 1 <= i < 1024 ==> #[trigger] f[i] == 0)
            &&& fed matches Fed::Pull(id) ==> said == if s.local_offer is Some
                && s.local_offer->0.id == id {
                FrameStepView::Push
            } else {
                FrameStepView::StalePull(id)
            }
            &&& fed matches Fed::Complete(k, d) ==> {
                &&& k == 1 ==> said == FrameStepView::SetText(
                    crate::text::lf(crate::text::read_utf8(d)),
                )
                &&& k == 2 ==> said == FrameStepView::SetImage(d)
                &&& k == 3 ==> said == FrameStepView::Unpack(d)
                &&& k == 0 || k > 3 ==> said == FrameStepView::Unsupported(k)
            }
            &&& fed matches Fed::Error(e) ==> said == FrameStepView::ProtocolError(e)
            &&& fed is Nothing ==> said == FrameStepView::Nothing
        }),
{
    lemma_pong();
}

proof fn lemma_pong()
    ensures
        ({
            let f = crate::clipframe::frame_bytes(crate::clipframe::T_PONG, 0, Seq::empty());
            &&& f.len() == 1024
            &&& f[0] == 0x02
            &&& forall|i: int| 1 <= i < 1024 ==> #[trigger] f[i] == 0
        }),
{
    let f = crate::clipframe::frame_bytes(crate::clipframe::T_PONG, 0, Seq::empty());
    crate::wire_laws::frames_on_the_wire(0x02, 0, Seq::empty());
    assert(f[2] == 0 && f[3] == 0 && f[4] == 0 && f[5] == 0);
    assert forall|i: int| 1 <= i < 1024 implies #[trigger] f[i] == 0 by {
        if i >= 6 {
            assert(f[i] == 0);
        }
    }
}

/// The helper fed a list of frames: where it ends up, what the last frame
/// called for, and the newest count that it has acknowledged, read from the
/// frames that it wrote back.
pub open spec fn helper_fed(s: HelperView, frames: Seq<Seq<u8>>) -> (
    HelperView,
    ReportStepView,
    u32,
)
    decreases frames.len(),
{
    if frames.len() == 0 {
        (s, ReportStepView::Nothing, 0)
    } else {
        let before = helper_fed(s, frames.drop_last());
        let (after, said) = before.0.on_report(frames.last());
        let heard = match said {
            ReportStepView::Ack(_, f) => crate::clipframe::acked(f),
            _ => None,
        };
        (
            after,
            said,
            match heard {
                Some(n) => n,
                None => before.2,
            },
        )
    }
}

/// The agent fed a list of frames, in the same way.
pub open spec fn agent_fed(s: AgentView, frames: Seq<Seq<u8>>) -> (AgentView, FrameStepView, u32)
    decreases frames.len(),
{
    if frames.len() == 0 {
        (s, FrameStepView::Nothing, 0)
    } else {
        let before = agent_fed(s, frames.drop_last());
        let (after, said) = before.0.on_frame(frames.last());
        let heard = match said {
            FrameStepView::Ack(_, f) => crate::clipframe::acked(f),
            _ => None,
        };
        (
            after,
            said,
            match heard {
                Some(n) => n,
                None => before.2,
            },
        )
    }
}

/// What a receiver reports on the first frames of a list does not depend on
/// the rest.
proof fn lemma_fed_prefix(s: ReassemblerView, frames: Seq<Seq<u8>>, k: int)
    requires
        0 <= k < frames.len(),
    ensures
        crate::reassembly::feed_step(
            crate::transfer_laws::feed_all(s, frames.take(k)).0,
            frames[k],
        ) == (
            crate::transfer_laws::feed_all(s, frames.take(k + 1)).0,
            crate::transfer_laws::feed_all(s, frames).1[k],
        ),
        crate::transfer_laws::feed_all(s, frames).1.len() == frames.len(),
    decreases frames.len(),
{
    let last = frames.len() - 1;
    let some = frames.drop_last();
    lemma_fed_len(s, some);
    assert(frames.take(k + 1).drop_last() =~= frames.take(k));
    if k == last {
        assert(frames.take(k) =~= some);
        assert(frames.take(k + 1) =~= frames);
    } else {
        lemma_fed_prefix(s, some, k);
        assert(some.take(k) =~= frames.take(k));
        assert(some.take(k + 1) =~= frames.take(k + 1));
    }
}

proof fn lemma_fed_len(s: ReassemblerView, frames: Seq<Seq<u8>>)
    ensures
        crate::transfer_laws::feed_all(s, frames).1.len() == frames.len(),
    decreases frames.len(),
{
    if frames.len() > 0 {
        lemma_fed_len(s, frames.drop_last());
    }
}

/// How many DATA frames are among the first `k` frames of a transfer of `n`.
spec fn data_among(k: int, n: int) -> int {
    if k <= 1 {
        0
    } else if k <= n + 1 {
        k - 1
    } else {
        n
    }
}

proof fn lemma_helper_fed(s: HelperView, kind: u8, data: Seq<u8>, k: int)
    requires
        data.len() <= 67_108_864,
        0 <= k <= crate::transfer::transfer_frames(kind, data).len(),
    ensures
        ({
            let frames = crate::transfer::transfer_frames(kind, data);
            let (after, said, heard) = helper_fed(s, frames.take(k));
            &&& after == (HelperView {
                reasm: crate::transfer_laws::feed_all(s.reasm, frames.take(k)).0,
                ..s
            })
            &&& heard == data_among(k, frames.len() - 2) / 128 * 128
            &&& k == frames.len() ==> said == ReportStepView::Apply(kind, data)
        }),
    decreases k,
{
    let frames = crate::transfer::transfer_frames(kind, data);
    let n = frames.len() - 2;
    if k == 0 {
        assert(crate::transfer_laws::feed_all(s.reasm, frames.take(0)).0 == s.reasm);
    } else {
        lemma_helper_fed(s, kind, data, k - 1);
        crate::transfer_laws::transfer_round_trip(s.reasm, kind, data);
        lemma_fed_prefix(s.reasm, frames, k - 1);
        let before = helper_fed(s, frames.take(k - 1)).0;
        let raw = frames[k - 1];
        assert(frames.take(k).drop_last() =~= frames.take(k - 1));
        let fed = crate::reassembly::feed_step(before.reasm, raw).1;
        assert(fed == crate::transfer_laws::transfer_reports(kind, data)[k - 1]);
        crate::wire_laws::transfers_on_the_wire(kind, data, k - 1);
        crate::wire_laws::only_acks_acknowledge(raw);
        assert(crate::clipframe::acked(raw) is None);
        if 2 <= k <= n + 1 {
            helper_acknowledges_progress(before, raw, (k - 1) as u32);
        }
        lemma_counted(k, n);
    }
}

/// A count is acknowledged when it is a multiple of 128.
proof fn lemma_counted(k: int, n: int)
    requires
        0 <= n,
        1 <= k <= n + 2,
    ensures
        data_among(k, n) / 128 * 128 == if 2 <= k <= n + 1 && (k - 1) % 128 == 0 {
            k - 1
        } else {
            data_among(k - 1, n) / 128 * 128
        },
{
}

/// A transfer of any size that is allowed runs to its end between a sender
/// and the helper, whatever the helper was doing: with what the helper has
/// acknowledged of the frames before it, each frame goes out at once, and
/// after the last one the sender is done and the helper applies the very
/// bytes that were sent.
pub proof fn transfers_to_the_helper_never_stall(
    s: HelperView,
    kind: u8,
    data: Seq<u8>,
    k: nat,
    waited: u64,
)
    requires
        data.len() <= 64 * 1024 * 1024,
        k <= crate::transfer::transfer_frames(kind, data).len(),
    ensures
        ({
            let frames = crate::transfer::transfer_frames(kind, data);
            let start = SenderView { frames: frames.len(), index: 0, sent_data: 0 };
            let (_, said, heard) = helper_fed(s, frames.take(k as int));
            let step = crate::flow::advanced_all(start, k).step(heard, waited);
            &&& k < frames.len() ==> step == SendStep::Write(k as usize)
            &&& k == frames.len() ==> step == SendStep::Done && said == ReportStepView::Apply(
                kind,
                data,
            )
        }),
{
    let frames = crate::transfer::transfer_frames(kind, data);
    let start = SenderView { frames: frames.len(), index: 0, sent_data: 0 };
    lemma_helper_fed(s, kind, data, k as int);
    lemma_sent(start, k);
    if k < frames.len() {
        senders_keep_a_window(
            crate::flow::advanced_all(start, k),
            helper_fed(s, frames.take(k as int)).2,
            waited,
        );
    }
}

proof fn lemma_sent(s: SenderView, k: nat)
    requires
        2 <= s.frames <= 0x1_0000_0000,
        s.index == 0,
        s.sent_data == 0,
        k <= s.frames,
    ensures
        ({
            let after = crate::flow::advanced_all(s, k);
            &&& after.wf()
            &&& after.frames == s.frames
            &&& after.index == k
            &&& after.sent_data == data_among(k as int, s.frames - 2)
        }),
    decreases k,
{
    if k > 0 {
        lemma_sent(s, (k - 1) as nat);
    }
}

proof fn lemma_agent_fed(s: AgentView, kind: u8, data: Seq<u8>, k: int)
    requires
        data.len() <= 67_108_864,
        0 <= k <= crate::transfer::transfer_frames(kind, data).len(),
    ensures
        ({
            let frames = crate::transfer::transfer_frames(kind, data);
            let (after, said, heard) = agent_fed(s, frames.take(k));
            &&& after == (AgentView {
                reasm: crate::transfer_laws::feed_all(s.reasm, frames.take(k)).0,
                ..s
            })
            &&& heard == data_among(k, frames.len() - 2) / 128 * 128
            &&& k == frames.len() ==> said == AgentView::completed(kind, data)
        }),
    decreases k,
{
    let frames = crate::transfer::transfer_frames(kind, data);
    let n = frames.len() - 2;
    if k == 0 {
        assert(crate::transfer_laws::feed_all(s.reasm, frames.take(0)).0 == s.reasm);
    } else {
        lemma_agent_fed(s, kind, data, k - 1);
        crate::transfer_laws::transfer_round_trip(s.reasm, kind, data);
        lemma_fed_prefix(s.reasm, frames, k - 1);
        let before = agent_fed(s, frames.take(k - 1)).0;
        let raw = frames[k - 1];
        assert(frames.take(k).drop_last() =~= frames.take(k - 1));
        let fed = crate::reassembly::feed_step(before.reasm, raw).1;
        assert(fed == crate::transfer_laws::transfer_reports(kind, data)[k - 1]);
        if 2 <= k <= n + 1 {
            agent_acknowledges_progress(before, raw, (k - 1) as u32);
        }
        lemma_counted(k, n);
    }
}

/// A transfer of any size that is allowed runs to its end between a sender
/// and the agent too, which then has the text or the image put on the
/// clipboard, or the files unpacked.
pub proof fn transfers_to_the_agent_never_stall(
    s: AgentView,
    kind: u8,
    data: Seq<u8>,
    k: nat,
    waited: u64,
)
    requires
        data.len() <= 64 * 1024 * 1024,
        k <= crate::transfer::transfer_frames(kind, data).len(),
    ensures
        ({
            let frames = crate::transfer::transfer_frames(kind, data);
            let start = SenderView { frames: frames.len(), index: 0, sent_data: 0 };
            let (_, said, heard) = agent_fed(s, frames.take(k as int));
            let step = crate::flow::advanced_all(start, k).step(heard, waited);
            &&& k < frames.len() ==> step == SendStep::Write(k as usize)
            &&& k == frames.len() ==> {
                &&& step == SendStep::Done
                &&& kind == 1 ==> said == FrameStepView::SetText(
                    crate::text::lf(crate::text::read_utf8(data)),
                )
                &&& kind == 2 ==> said == FrameStepView::SetImage(data)
                &&& kind == 3 ==> said == FrameStepView::Unpack(data)
                &&& kind == 0 || kind > 3 ==> said == FrameStepView::Unsupported(kind)
            }
        }),
{
    let frames = crate::transfer::transfer_frames(kind, data);
    let start = SenderView { frames: frames.len(), index: 0, sent_data: 0 };
    lemma_agent_fed(s, kind, data, k as int);
    lemma_sent(start, k);
    if k < frames.len() {
        senders_keep_a_window(
            crate::flow::advanced_all(start, k),
            agent_fed(s, frames.take(k as int)).2,
            waited,
        );
    }
}

/// A sender that has seen any acknowledgement of the past is never ahead of
/// the receiver's count by more than 256 DATA frames.
pub proof fn at_most_256_frames_are_unacknowledged(s: SenderView, acked: u32, waited: u64)
    requires
        s.wf(),
        s.sent_data <= acked + 256,
    ensures
        s.step(acked, waited) is Write ==> s.advanced().sent_data <= acked + 256,
{
}

/// What the helper does with a whole transfer: text goes on the clipboard
/// with CRLF endings, an image is published as it came, with its DIB, files
/// are unpacked, and no other kind is taken.
pub proof fn helper_applies_by_kind(data: Seq<u8>, t: Seq<char>, bmp: Option<Seq<u8>>, k: u8)
    ensures
        !t.contains('\r') ==> crate::helper::applied(1, vstd::utf8::encode_utf8(t), bmp)
            == ApplyStepView::SetText(crate::text::crlf(t)),
        crate::helper::applied(1, vstd::utf8::encode_utf8(crate::text::crlf(t)), bmp)
            == ApplyStepView::SetText(crate::text::crlf(t)),
        bmp matches Some(b) ==> crate::helper::applied(2, data, bmp) == ApplyStepView::SetImage(
            data,
            if b.len() > 14 {
                Some(b.skip(14))
            } else {
                None
            },
        ),
        bmp is None ==> crate::helper::applied(2, data, bmp) == ApplyStepView::BadImage,
        crate::helper::applied(3, data, bmp) == ApplyStepView::Unpack(data),
        k == 0 || k > 3 ==> crate::helper::applied(k, data, bmp) == ApplyStepView::Unsupported(k),
{
    crate::text_laws::text_is_received_as_sent(t);
    crate::text_laws::text_is_received_as_sent(crate::text::crlf(t));
    crate::text::line_endings_round_trip(t);
    if !t.contains('\r') {
        crate::text_laws::text_without_returns_stays(t);
    }
}

/// What a copy calls for: nothing when its hash is that of what was last
/// sent or last set, a look at the files when it is of files, and else to be
/// sent now, which ends the offer of files. Both ends do the same.
pub proof fn copies_are_taken_up(h: HelperView, a: AgentView, kind: u8, c: Seq<u8>, hash: u64)
    ensures
        ({
            let (after, said) = h.copied(kind, c, hash);
            &&& said == CopyStepView::Ignore <==> hash == h.last_sent || hash == h.last_set
            &&& said is SendNow <==> hash != h.last_sent && hash != h.last_set && kind != 3
            &&& said matches CopyStepView::Measure(paths) ==> paths == crate::text::lines_of(
                crate::text::read_utf8(c),
            )
            &&& after == if said is SendNow {
                HelperView { local_offer: None, ..h }
            } else {
                h
            }
        }),
        ({
            let (after, said) = a.local_changed(kind, c, hash);
            &&& said == LocalStepView::Ignore <==> hash == a.last_sent || hash == a.last_set
            &&& said is SendNow <==> hash != a.last_sent && hash != a.last_set && kind != 3
            &&& said matches LocalStepView::Measure(paths) ==> paths == crate::uri::paths_of_lines(
                crate::text::lines_of(crate::text::read_utf8(c)),
            )
            &&& after == if said is SendNow {
                AgentView { local_offer: None, ..a }
            } else {
                a
            }
        }),
{
}

/// What the agent does on a message: crossing over has what is on offer
/// sent, coming back asks once for what the other side offers, and a request
/// does both, every time.
pub proof fn messages_move_offers(s: AgentView, c: Control)
    ensures
        AgentView::wants_push(c) <==> c is Remote || c is Pull,
        s.remote_offer is None ==> !s.wants_pull(c),
        s.remote_offer matches Some(r) ==> (s.wants_pull(c) <==> c is Pull || (c is Local
            && !r.requested)),
{
}

/// The words of the agent's messages.
pub proof fn words_of_messages(t: Seq<char>)
    ensures
        crate::agent::control_of(t) is Remote <==> t == seq!['r', 'e', 'm', 'o', 't', 'e'],
        crate::agent::control_of(t) is Local <==> t == seq!['l', 'o', 'c', 'a', 'l'],
        crate::agent::control_of(t) is Pull <==> t == seq!['p', 'u', 'l', 'l'],
{
    reveal_strlit("remote");
    reveal_strlit("local");
    reveal_strlit("pull");
    assert("remote"@ =~= seq!['r', 'e', 'm', 'o', 't', 'e']);
    assert("local"@ =~= seq!['l', 'o', 'c', 'a', 'l']);
    assert("pull"@ =~= seq!['p', 'u', 'l', 'l']);
}

/// An offer of files tells how many and how large they are, as far as its
/// numbers reach, and no more than that.
pub proof fn offers_tell_sizes(items: nat, total: u64, hash: u64)
    ensures
        ({
            let o: Offer = crate::offers::batch_offer(items, total, hash);
            &&& o.kind == 3
            &&& total <= 0xffff_ffff ==> o.total == total
            &&& total > 0xffff_ffff ==> o.total == 0xffff_ffff
            &&& items <= 0xffff ==> o.items == items
            &&& items > 0xffff ==> o.items == 0xffff
            &&& o.id == crate::signature::offer_id_of(hash)
        }),
{
}

/// A transfer is tried twice at most: the first attempt is repeated if it
/// stalled, and no other ever is.
pub proof fn transfers_are_tried_twice_at_most(attempt: u32, end: AttemptEnd)
    ensures
        crate::flow::what_follows(attempt, end) == AfterAttempt::Retry <==> attempt == 0
            && end is Stalled,
        crate::flow::what_follows(attempt, end) == AfterAttempt::Abandon <==> attempt > 0
            && end is Stalled,
        crate::flow::what_follows(attempt, end) == AfterAttempt::Sent <==> end is Sent,
        crate::flow::what_follows(attempt, end) == AfterAttempt::Lost <==> end is Lost,
{
}

/// A frame that the host does not take is dropped after more than ten
/// seconds, and tried again until then; that it waits is said once, after
/// more than one second.
pub proof fn frames_wait_for_the_host(w: FrameWrite, waited: u64)
    ensures
        w.verdict(Attempt::Written, waited) == Verdict::Done,
        w.verdict(Attempt::Failed, waited) == Verdict::GiveUp,
        w.verdict(Attempt::WouldBlock, waited) == Verdict::Drop <==> waited > 10_000_000_000,
        w.verdict(Attempt::WouldBlock, waited) == Verdict::Retry(true) <==> !w.warned
            && 1_000_000_000 < waited <= 10_000_000_000,
        w.verdict(Attempt::WouldBlock, waited) == Verdict::Retry(false) <==> waited
            <= 1_000_000_000 || (w.warned && waited <= 10_000_000_000),
{
}

/// What the desktop offers is sent when input crosses over, and on request,
/// and on no other message. It is off offer while it is sent; if that fails
/// all is as it was before, and if not it stays off offer.
pub proof fn offers_are_sent_on_crossing_over(s: AgentView, lo: LocalOfferView, c: Control)
    requires
        s.local_offer == Some(lo),
    ensures
        ({
            let (out, taken) = s.taken_out(c);
            if c is Remote || c is Pull {
                &&& taken == Some(lo)
                &&& out == (AgentView { local_offer: None, ..s })
                &&& out.after_push(lo, PushEnd::Failed) == s
                &&& out.after_push(lo, PushEnd::Sent) == out
                &&& out.after_push(lo, PushEnd::Lost) == out
            } else {
                taken is None && out == s
            }
        }),
{
}

/// A pull that is served uses the offer up once it is sent, and not before;
/// content that was sent or given up is not sent again, and content whose
/// connection was lost is.
pub proof fn ends_of_sending(s: AgentView, end: PushEnd, hash: u64)
    ensures
        end is Sent ==> s.after_serving(end) == (AgentView { local_offer: None, ..s }),
        !(end is Sent) ==> s.after_serving(end) == s,
        end is Lost ==> s.after_send(end, hash) == s,
        !(end is Lost) ==> s.after_send(end, hash) == (AgentView { last_sent: hash, ..s }),
{
}

/// What the other side offers arrives when the user comes back, or asks: the
/// PULL that the agent sends has the helper take up that very offer and pack
/// its paths, and having sent them it offers them no more. The agent then
/// knows that it has asked.
pub proof fn pulled_offers_are_packed(
    a: AgentView,
    h: HelperView,
    o: Offer,
    requested: bool,
    c: Control,
    paths: Seq<Seq<char>>,
)
    requires
        a.remote_offer == Some(RemoteOffer { offer: o, requested }),
        h.local_offer == Some(LocalOfferView { id: o.id, paths }),
        c is Pull || (c is Local && !requested),
    ensures
        ({
            let (after, sent) = a.asked(c);
            &&& after == (AgentView {
                remote_offer: Some(RemoteOffer { offer: o, requested: true }),
                ..a
            })
            &&& sent matches Some((offer, f)) && offer == o && ({
                let (told, said) = h.on_report(f);
                let (taken, step) = told.pull_taken();
                &&& said == ReportStepView::Nothing
                &&& step == PullStepView::Push(paths)
                &&& taken == (HelperView { pull_request: None, ..h })
                &&& taken.after_push(true) == (HelperView { local_offer: None, ..taken })
                &&& taken.after_push(false) == taken
            })
        }),
{
    crate::helper_laws::newest_pull_waits(h, o.id);
}

/// A pull that names another offer than ours is stale, and so is any while
/// we offer nothing; without a pull nothing is packed. No pull is taken up
/// twice.
pub proof fn other_pulls_are_not_packed(h: HelperView, id: u32)
    ensures
        h.pull_taken().0 == (HelperView { pull_request: None, ..h }),
        h.pull_request is None ==> h.pull_taken().1 == PullStepView::Nothing,
        h.pull_request == Some(id) && !(h.local_offer is Some && h.local_offer->0.id == id)
            ==> h.pull_taken().1 == PullStepView::Stale(id),
        h.pull_taken().0.pull_taken().1 == PullStepView::Nothing,
{
}

/// Nothing is asked for where nothing is offered, or on any other message.
pub proof fn nothing_else_is_asked_for(a: AgentView, c: Control)
    requires
        a.remote_offer is None || !(c is Pull || c is Local) || (c is Local
            && a.remote_offer->0.requested),
    ensures
        a.asked(c) == (a, None::<(Offer, Seq<u8>)>),
{
}

/// The bridge's data channel is told by its vendor, its product and its
/// usage page together.
pub proof fn the_data_channel_is_told_by_three_numbers(vid: u16, pid: u16, usage_page: u16)
    ensures
        crate::helper::carries_data(vid, pid, usage_page) <==> vid == 0x1d6b && pid == 0x0104
            && usage_page == 0xff60,
{
}

/// An image is out when one of its formats is; files are out when their list
/// is, and the drop effect is not known to have failed.
pub proof fn when_content_is_out(a: Option<bool>, list: bool)
    ensures
        crate::helper::image_is_out(Some(true), a),
        crate::helper::image_is_out(a, Some(true)),
        a != Some(true) ==> !crate::helper::image_is_out(a, None) && !crate::helper::image_is_out(
            a,
            Some(false),
        ) && !crate::helper::image_is_out(None, a) && !crate::helper::image_is_out(Some(false), a),
        crate::helper::files_are_out(list, None) == list,
        crate::helper::files_are_out(list, Some(true)) == list,
        !crate::helper::files_are_out(list, Some(false)),
        !crate::helper::files_are_out(false, a),
{
}

/// Progress is the whole percentage of the frames that are out, and stays
/// below 100 until the transfer is over.
pub proof fn progress_in_percent(i: int, n: int, p: int)
    requires
        0 <= i <= n,
        0 < n,
        0 <= p <= 99,
        p * n <= 100 * i,
        p < 99 ==> 100 * i < (p + 1) * n,
    ensures
        crate::flow::percent_of(i, n) == p,
{
    assert(p <= (i * 100) / n) by (nonlinear_arith)
        requires
            0 < n,
            p * n <= 100 * i,
    ;
    if p < 99 {
        assert((i * 100) / n < p + 1) by (nonlinear_arith)
            requires
                0 < n,
                100 * i < (p + 1) * n,
        ;
    }
}

} // verus!
