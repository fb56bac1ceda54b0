//! What the helper guarantees, alone and together with the desktop agent.

use vstd::prelude::*;

use crate::agent::{AgentView, FrameStepView};
use crate::clipframe::{KIND_TAR, KIND_TEXT};
use crate::files::Node;
use crate::helper::{ApplyStepView, CopyStepView, HelperView, ReportStepView};

verus! {

/// Echo suppression: content that we set ourselves, or sent already, is
/// never sent again when the clipboard shows it.
pub proof fn helper_echoes_are_ignored(s: HelperView, kind: u8, data: Seq<u8>)
    ensures
        ({
            let h = crate::signature::content_hash_of(kind, data);
            let set = HelperView { last_set: h, ..s };
            let sent = HelperView { last_sent: h, ..s };
            &&& set.copied(kind, data, h) == (set, CopyStepView::Ignore)
            &&& sent.copied(kind, data, h) == (sent, CopyStepView::Ignore)
        }),
{
}

/// Echo suppression for files: the hash of a staged batch, taken from the
/// same files, is the one that was remembered when it was set.
pub proof fn helper_staged_batches_are_not_echoed(
    s: HelperView,
    list: Seq<u8>,
    staged: Seq<Node>,
    hash: u64,
)
    requires
        crate::offers::batch_hash(staged) == Some(hash),
    ensures
        (HelperView { last_set: hash, ..s }).copied(KIND_TAR, list, hash).1
            == CopyStepView::Ignore,
{
}

/// Files are lazy: a copy of files never has their bytes sent, and does not
/// touch what is on offer until the new offer is out.
pub proof fn helper_copied_files_are_not_sent(s: HelperView, content: Seq<u8>, hash: u64)
    ensures
        s.copied(KIND_TAR, content, hash).1 !is SendNow,
        s.copied(KIND_TAR, content, hash).0 == s,
{
}

/// A copy of anything else supersedes the file offer, and is sent at once.
pub proof fn helper_other_copies_supersede_the_offer(
    s: HelperView,
    kind: u8,
    content: Seq<u8>,
    hash: u64,
)
    requires
        kind != KIND_TAR,
        !s.is_echo(hash),
    ensures
        s.copied(kind, content, hash) == (
            HelperView { local_offer: None, ..s },
            CopyStepView::SendNow,
        ),
{
}

/// A PULL waits until it is taken up, the newest one in place of any other,
/// and disturbs nothing else.
pub proof fn newest_pull_waits(s: HelperView, id: u32)
    ensures
        s.on_report(
            crate::clipframe::frame_bytes(crate::clipframe::T_PULL, 0, crate::le::u32_le(id)),
        ) == (HelperView { pull_request: Some(id), ..s }, ReportStepView::Nothing),
{
    crate::clipframe::frame_round_trip(crate::clipframe::T_PULL, 0, crate::le::u32_le(id));
    crate::le::u32_round_trip(id);
}

/// ACKs reach the sender with their count, and change nothing else.
pub proof fn acks_reach_the_sender(s: HelperView, count: u32)
    ensures
        s.on_report(
            crate::clipframe::frame_bytes(crate::clipframe::T_ACK, 0, crate::le::u32_le(count)),
        ) == (s, ReportStepView::Acked(count)),
{
    crate::clipframe::ack_round_trip(0, 0, Seq::empty(), count);
}

/// The path list that stands for copied files reads back as its paths, as
/// long as these are what paths are: not empty, without line breaks, and
/// without a carriage return at the end.
pub proof fn path_list_round_trip(list: Seq<Seq<char>>)
    requires
        forall|i: int|
            0 <= i < list.len() ==> (#[trigger] list[i]).len() > 0 && !list[i].contains('\n')
                && list[i].last() != '\r',
    ensures
        crate::text::lines_of(
            crate::text::read_utf8(vstd::utf8::encode_utf8(crate::helper::joined(list))),
        ) == list,
{
    let s = crate::helper::joined(list);
    vstd::utf8::encode_utf8_valid_utf8(s);
    vstd::utf8::encode_utf8_decode_utf8(s);
    lemma_joined_lines(list);
}

proof fn lemma_joined_lines(list: Seq<Seq<char>>)
    requires
        forall|i: int|
            0 <= i < list.len() ==> (#[trigger] list[i]).len() > 0 && !list[i].contains('\n')
                && list[i].last() != '\r',
    ensures
        crate::text::lines_of(crate::helper::joined(list)) == list,
        list.len() > 0 ==> crate::helper::joined(list).len() > 0 && crate::helper::joined(
            list,
        ).last() == list.last().last(),
    decreases list.len(),
{
    let s = crate::helper::joined(list);
    if list.len() == 0 {
        assert(list =~= Seq::empty());
    } else if list.len() == 1 {
        let l = list[0];
        l.index_of_first_ensures('\n');
        assert(crate::text::lines_of(s) =~= seq![l]);
        assert(list =~= seq![l]);
    } else {
        let rest = list.drop_last();
        let l = list.last();
        assert(list[list.len() - 1] == l);
        assert forall|i: int| 0 <= i < rest.len() implies (#[trigger] rest[i]).len() > 0
            && !rest[i].contains('\n') && rest[i].last() != '\r' by {
            assert(rest[i] == list[i]);
        }
        lemma_joined_lines(rest);
        let p = crate::helper::joined(rest);
        assert(rest[rest.len() - 1] == rest.last());
        assert(p.last() != '\n') by {
            let r = rest.last();
            assert(r.contains(r[r.len() - 1]));
        }
        assert forall|i: int| 0 <= i < l.len() implies l[i] != '\n' by {
            assert(l.contains(l[i]));
        }
        crate::uri_laws::one_more_line(p, l);
        assert(rest.push(l) =~= list);
        assert(s.last() == l.last());
    }
}

/// Text comes through in the line endings of each machine: what the desktop
/// holds with LF endings is set here with CRLF endings, and sent back from
/// here it is set there as it was.
pub proof fn text_survives_both_ways(text: Seq<char>, bmp: Option<Seq<u8>>)
    requires
        crate::text::lf(text) == text,
    ensures
        crate::helper::applied(KIND_TEXT, vstd::utf8::encode_utf8(text), bmp)
            == ApplyStepView::SetText(crate::text::crlf(text)),
        AgentView::completed(KIND_TEXT, vstd::utf8::encode_utf8(crate::text::crlf(text)))
            == FrameStepView::SetText(text),
{
    vstd::utf8::encode_utf8_valid_utf8(text);
    vstd::utf8::encode_utf8_decode_utf8(text);
    crate::agent_laws::received_text_has_local_line_endings(text);
}

/// What completes a transfer is applied as it was sent.
pub proof fn helper_applies_what_was_sent(s: HelperView, kind: u8, data: Seq<u8>)
    requires
        data.len() <= crate::clipframe::MAX_TRANSFER,
    ensures
        ({
            let frames = crate::transfer::transfer_frames(kind, data);
            let before = crate::transfer_laws::feed_all(s.reasm, frames.drop_last()).0;
            (HelperView { reasm: before, ..s }).on_report(frames.last()).1
                == ReportStepView::Apply(kind, data)
        }),
{
    let frames = crate::transfer::transfer_frames(kind, data);
    let n = crate::transfer::chunk_count(data.len()) as int;
    crate::transfer_laws::transfer_round_trip(s.reasm, kind, data);
    let all = crate::transfer_laws::feed_all(s.reasm, frames);
    let before = crate::transfer_laws::feed_all(s.reasm, frames.drop_last());
    let step = crate::reassembly::feed_step(before.0, frames.last());
    assert(all.1 == before.1.push(step.1));
    assert(all.1.last() == step.1);
    crate::clipframe::ack_round_trip(
        crate::clipframe::T_END,
        crate::transfer::seq_of(n + 1),
        crate::le::u32_le(data.len() as u32),
        0,
    );
    assert(frames.last() == frames[n + 1]);
}

/// A list of paths has each on a line of its own, and nothing else.
pub proof fn path_lists_are_joined(list: Seq<Seq<char>>, a: Seq<char>)
    ensures
        crate::helper::joined(Seq::empty()) == Seq::<char>::empty(),
        crate::helper::joined(seq![a]) == a,
        list.len() > 0 ==> crate::helper::joined(list.push(a)) == crate::helper::joined(list)
            + seq!['\n'] + a,
{
    assert(list.push(a).drop_last() =~= list);
}

} // verus!
