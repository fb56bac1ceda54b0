//! What the desktop agent guarantees.

use vstd::prelude::*;

use crate::agent::{AgentView, Control, FrameStepView, LocalStepView, RemoteOffer};
use crate::clipframe::{Offer, KIND_TAR};
use crate::files::Node;

verus! {

/// Echo suppression: content that we set ourselves, or sent already, is
/// never sent again when the clipboard shows it.
pub proof fn echoes_are_ignored(s: AgentView, kind: u8, data: Seq<u8>)
    ensures
        ({
            let set = AgentView {
                last_set: crate::signature::content_hash_of(kind, data),
                ..s
            };
            set.local_changed(kind, data, crate::signature::content_hash_of(kind, data)) == (
                set,
                LocalStepView::Ignore,
            )
        }),
        ({
            let sent = AgentView {
                last_sent: crate::signature::content_hash_of(kind, data),
                ..s
            };
            sent.local_changed(kind, data, crate::signature::content_hash_of(kind, data)) == (
                sent,
                LocalStepView::Ignore,
            )
        }),
{
}

/// Echo suppression for files: the list that we put on the clipboard for a
/// staged batch reads back as the batch's own paths, and its hash, taken
/// from the same files, is the one we remembered; so it is ignored.
pub proof fn staged_batches_are_not_echoed(
    s: AgentView,
    paths: Seq<Seq<char>>,
    staged: Seq<Node>,
    hash: u64,
)
    requires
        crate::offers::batch_hash(staged) == Some(hash),
    ensures
        ({
            let list = vstd::utf8::encode_utf8(crate::uri::copied_files(paths));
            let set = AgentView { last_set: hash, remote_offer: None, ..s };
            &&& crate::uri::paths_of_lines(
                crate::text::lines_of(crate::text::read_utf8(list)),
            ) == paths
            &&& set.local_changed(KIND_TAR, list, hash) == (set, LocalStepView::Ignore)
        }),
{
    crate::uri_laws::copied_file_list_round_trip(paths);
}

/// Files are lazy: a local copy of files never has their bytes sent, and
/// does not touch what is on offer until the new offer is out.
pub proof fn copied_files_are_not_sent(s: AgentView, content: Seq<u8>, hash: u64)
    ensures
        s.local_changed(KIND_TAR, content, hash).1 !is SendNow,
        s.local_changed(KIND_TAR, content, hash).0 == s,
{
}

/// A local copy of anything else supersedes the file offer, and is sent at
/// once.
pub proof fn other_copies_supersede_the_offer(s: AgentView, kind: u8, content: Seq<u8>, hash: u64)
    requires
        kind != KIND_TAR,
        !s.is_echo(hash),
    ensures
        s.local_changed(kind, content, hash) == (
            AgentView { local_offer: None, ..s },
            LocalStepView::SendNow,
        ),
{
}

/// The other side's PULL has our files sent exactly when it names the offer
/// that we hold.
pub proof fn pull_must_name_our_offer(s: AgentView, id: u32)
    ensures
        ({
            let raw = crate::clipframe::frame_bytes(
                crate::clipframe::T_PULL,
                0,
                crate::le::u32_le(id),
            );
            &&& s.on_frame(raw).0 == s
            &&& s.on_frame(raw).1 == if s.local_offer matches Some(lo) && lo.id == id {
                FrameStepView::Push
            } else {
                FrameStepView::StalePull(id)
            }
        }),
{
    crate::clipframe::frame_round_trip(crate::clipframe::T_PULL, 0, crate::le::u32_le(id));
    crate::le::u32_round_trip(id);
}

/// The other side's newest offer is the one we hold, not asked for yet.
pub proof fn newest_offer_wins(s: AgentView, o: Offer)
    ensures
        s.on_frame(
            crate::clipframe::frame_bytes(
                crate::clipframe::T_OFFER,
                0,
                crate::clipframe::offer_payload(o),
            ),
        ) == (
            AgentView { remote_offer: Some(RemoteOffer { offer: o, requested: false }), ..s },
            FrameStepView::Offered(o),
        ),
{
    crate::clipframe::frame_round_trip(
        crate::clipframe::T_OFFER,
        0,
        crate::clipframe::offer_payload(o),
    );
    crate::clipframe::offer_round_trip(o);
}

/// Coming back asks for an offer once; asking explicitly always does; going
/// over never does.
pub proof fn crossing_back_pulls_once(s: AgentView, ro: RemoteOffer)
    requires
        s.remote_offer == Some(ro),
    ensures
        s.wants_pull(Control::Local) <==> !ro.requested,
        s.wants_pull(Control::Pull),
        !s.wants_pull(Control::Remote),
        ({
            let asked = AgentView {
                remote_offer: Some(RemoteOffer { requested: true, ..ro }),
                ..s
            };
            !asked.wants_pull(Control::Local) && asked.wants_pull(Control::Pull)
        }),
{
}

/// Received text is put on the clipboard with LF endings however it was
/// sent: text that a machine with CRLF endings sends for it arrives as it is
/// here.
pub proof fn received_text_has_local_line_endings(text: Seq<char>)
    ensures
        AgentView::completed(
            crate::clipframe::KIND_TEXT,
            vstd::utf8::encode_utf8(crate::text::crlf(text)),
        ) == FrameStepView::SetText(text),
{
    let wire = crate::text::crlf(text);
    vstd::utf8::encode_utf8_valid_utf8(wire);
    vstd::utf8::encode_utf8_decode_utf8(wire);
    crate::text::line_endings_round_trip(text);
}

/// What completes the other side's transfer reaches the clipboard: the
/// frames of a transfer, fed one by one, end in the content itself.
pub proof fn transfers_reach_the_clipboard(s: AgentView, kind: u8, data: Seq<u8>)
    requires
        data.len() <= crate::clipframe::MAX_TRANSFER,
    ensures
        ({
            let frames = crate::transfer::transfer_frames(kind, data);
            let before = crate::transfer_laws::feed_all(s.reasm, frames.drop_last()).0;
            (AgentView { reasm: before, ..s }).on_frame(frames.last()).1 == AgentView::completed(
                kind,
                data,
            )
        }),
{
    let frames = crate::transfer::transfer_frames(kind, data);
    crate::transfer_laws::transfer_round_trip(s.reasm, kind, data);
    let all = crate::transfer_laws::feed_all(s.reasm, frames);
    let before = crate::transfer_laws::feed_all(s.reasm, frames.drop_last());
    let step = crate::reassembly::feed_step(before.0, frames.last());
    assert(all.1 == before.1.push(step.1));
    assert(all.1.last() == step.1);
}

} // verus!
