//! The helper on the other machine: syncs its clipboard through the vendor
//! HID interface of the bridge.
//!
//! Text and images are eager. Files are lazy: a copy sends only an OFFER and
//! the batch goes out when the desktop PULLs it (which its router does when
//! the user crosses over). Copies that stay local never transfer.

use vstd::prelude::*;

use crate::clipframe::{
    ack_frame, parse_ack, pong_frame, Offer, FRAME_LEN, KIND_PNG, KIND_TAR, KIND_TEXT,
};
use crate::files::Node;
use crate::flow::ack_due;
use crate::images::{bmp_to_png, dib_of_bmp, has_whole_palette, png_to_bmp};
use crate::le::u32_to_le;
use crate::offers::{hash_batch, LocalOffer, LocalOfferView};
use crate::reassembly::{FeedResult, Fed, Reassembler, ReassemblerView};
use crate::selection::{image_content, text_content, text_lines, Content};
use crate::signature::content_hash;
use crate::text::{push_str, text_of, to_crlf, to_lf};

verus! {

/// The HID interface of the bridge's data channel.
pub const VID: u16 = 0x1d6b;

pub const PID: u16 = 0x0104;

pub const USAGE_PAGE: u16 = 0xff60;

/// Whether a HID interface is the bridge's data channel.
pub open spec fn carries_data(vid: u16, pid: u16, usage_page: u16) -> bool {
    vid == VID && pid == PID && usage_page == USAGE_PAGE
}

pub fn is_data_channel(vid: u16, pid: u16, usage_page: u16) -> (b: bool)
    ensures
        b == carries_data(vid, pid, usage_page),
{
    vid == VID && pid == PID && usage_page == USAGE_PAGE
}

/// A frame as the HID layer writes it: the report id (0 for none) first.
pub fn hid_report(f: &[u8; FRAME_LEN]) -> (r: Vec<u8>)
    ensures
        r@ == seq![0u8] + f@,
{
    let mut r: Vec<u8> = Vec::with_capacity(FRAME_LEN + 1);
    r.push(0);
    r.extend_from_slice(f.as_slice());
    assert(r@ =~= seq![0u8] + f@);
    r
}

/// The helper's memory.
pub struct Helper {
    last_sent: u64,
    last_set: u64,
    local_offer: Option<LocalOffer>,
    pull_request: Option<u32>,
    last_seq: u32,
    reasm: Reassembler,
}

/// The helper's memory: the hashes of what was last sent and last set, what
/// is on offer, the pull that waits to be served, the clipboard's sequence
/// number when it was last looked at, and the transfer in progress.
#[verifier::ext_equal]
pub struct HelperView {
    pub last_sent: u64,
    pub last_set: u64,
    pub local_offer: Option<LocalOfferView>,
    pub pull_request: Option<u32>,
    pub last_seq: u32,
    pub reasm: ReassemblerView,
}

impl View for Helper {
    type V = HelperView;

    closed spec fn view(&self) -> HelperView {
        HelperView {
            last_sent: self.last_sent,
            last_set: self.last_set,
            local_offer: crate::offers::offer_view(self.local_offer),
            pull_request: self.pull_request,
            last_seq: self.last_seq,
            reasm: self.reasm@,
        }
    }
}

/// What a report from the device calls for.
pub enum ReportStep {
    Nothing,
    /// The desktop has taken in this many DATA frames.
    Acked(u32),
    /// Write this frame back.
    Answer([u8; FRAME_LEN]),
    /// Acknowledge DATA frames up to this count with the frame.
    Ack(u32, [u8; FRAME_LEN]),
    /// The desktop offers something; it arrives when the user crosses over.
    Offered(Offer),
    /// A transfer is complete: apply it, away from the reader.
    Apply(u8, Vec<u8>),
    ProtocolError(&'static str),
}

/// What a report from the device calls for.
#[verifier::ext_equal]
pub enum ReportStepView {
    Nothing,
    Acked(u32),
    Answer(Seq<u8>),
    Ack(u32, Seq<u8>),
    Offered(Offer),
    Apply(u8, Seq<u8>),
    ProtocolError(Seq<char>),
}

impl View for ReportStep {
    type V = ReportStepView;

    open spec fn view(&self) -> ReportStepView {
        match *self {
            ReportStep::Nothing => ReportStepView::Nothing,
            ReportStep::Acked(n) => ReportStepView::Acked(n),
            ReportStep::Answer(f) => ReportStepView::Answer(f@),
            ReportStep::Ack(n, f) => ReportStepView::Ack(n, f@),
            ReportStep::Offered(o) => ReportStepView::Offered(o),
            ReportStep::Apply(kind, data) => ReportStepView::Apply(kind, data@),
            ReportStep::ProtocolError(e) => ReportStepView::ProtocolError(e@),
        }
    }
}

/// What applying a completed transfer calls for.
pub enum ApplyStep {
    /// Put this text on the clipboard.
    SetText(String),
    /// Publish this PNG, and this DIB beside it if there is one.
    SetImage(Vec<u8>, Option<Vec<u8>>),
    /// The image does not decode.
    BadImage,
    /// Unpack this batch, and put its paths on the clipboard.
    Unpack(Vec<u8>),
    /// A kind that we do not know.
    Unsupported(u8),
}

/// What applying a completed transfer calls for.
#[verifier::ext_equal]
pub enum ApplyStepView {
    SetText(Seq<char>),
    SetImage(Seq<u8>, Option<Seq<u8>>),
    BadImage,
    Unpack(Seq<u8>),
    Unsupported(u8),
}

impl View for ApplyStep {
    type V = ApplyStepView;

    open spec fn view(&self) -> ApplyStepView {
        match *self {
            ApplyStep::SetText(s) => ApplyStepView::SetText(s@),
            ApplyStep::SetImage(png, dib) => ApplyStepView::SetImage(
                png@,
                match dib {
                    Some(d) => Some(d@),
                    None => None,
                },
            ),
            ApplyStep::BadImage => ApplyStepView::BadImage,
            ApplyStep::Unpack(d) => ApplyStepView::Unpack(d@),
            ApplyStep::Unsupported(k) => ApplyStepView::Unsupported(k),
        }
    }
}

/// What applying a completed transfer calls for, given what its bytes are as
/// a BMP.
pub open spec fn applied(kind: u8, data: Seq<u8>, bmp: Option<Seq<u8>>) -> ApplyStepView {
    if kind == KIND_TEXT {
        ApplyStepView::SetText(crate::text::crlf(crate::text::lf(crate::text::read_utf8(data))))
    } else if kind == KIND_PNG {
        match bmp {
            Some(b) => ApplyStepView::SetImage(data, crate::images::dib_in(b)),
            None => ApplyStepView::BadImage,
        }
    } else if kind == KIND_TAR {
        ApplyStepView::Unpack(data)
    } else {
        ApplyStepView::Unsupported(kind)
    }
}

/// Text as it goes on this clipboard: CRLF endings, whatever it came with.
pub fn windows_text(data: &[u8]) -> (s: String)
    ensures
        s@ == crate::text::crlf(crate::text::lf(crate::text::read_utf8(data@))),
{
    to_crlf(to_lf(text_of(data).as_str()).as_str())
}

/// Bytes that may be there.
pub open spec fn bytes_view(b: Option<Vec<u8>>) -> Option<Seq<u8>> {
    match b {
        Some(v) => Some(v@),
        None => None,
    }
}

/// Decide how to apply a completed transfer, given what its bytes are as a
/// BMP. An image is published in two formats at once: as it came, for
/// Chromium apps, and as a DIB, for classic ones.
pub fn apply_converted(kind: u8, data: Vec<u8>, bmp: Option<Vec<u8>>) -> (r: ApplyStep)
    ensures
        r@ == applied(kind, data@, bytes_view(bmp)),
{
    if kind == KIND_TEXT {
        ApplyStep::SetText(windows_text(data.as_slice()))
    } else if kind == KIND_PNG {
        match bmp {
            Some(b) => ApplyStep::SetImage(data, dib_of_bmp(b.as_slice())),
            None => ApplyStep::BadImage,
        }
    } else if kind == KIND_TAR {
        ApplyStep::Unpack(data)
    } else {
        ApplyStep::Unsupported(kind)
    }
}

/// Decide how to apply a completed transfer. An image that decodes always
/// has a DIB to publish beside it.
pub fn apply(kind: u8, data: Vec<u8>) -> (r: ApplyStep)
    ensures
        r@ == applied(kind, data@, crate::images::bmp_for(data@)),
        kind == KIND_PNG && crate::images::bmp_for(data@) is Some ==> (r matches
            ApplyStep::SetImage(_, dib) && dib is Some),
{
    let bmp = if kind == KIND_PNG && has_whole_palette(data.as_slice()) {
        png_to_bmp(data.as_slice())
    } else {
        None
    };
    apply_converted(kind, data, bmp)
}

/// Whether an image counts as published, given how setting each format went
/// (nothing where a format was not set): one is enough.
pub open spec fn image_is_out(png: Option<bool>, dib: Option<bool>) -> bool {
    png == Some(true) || dib == Some(true)
}

pub fn image_published(png: Option<bool>, dib: Option<bool>) -> (b: bool)
    ensures
        b == image_is_out(png, dib),
{
    let p = match png {
        Some(ok) => ok,
        None => false,
    };
    let d = match dib {
        Some(ok) => ok,
        None => false,
    };
    p || d
}

/// Whether files count as published, given how setting the list went, and
/// the drop effect where it could be set: both must go through.
pub open spec fn files_are_out(list: bool, effect: Option<bool>) -> bool {
    list && effect != Some(false)
}

pub fn files_published(list: bool, effect: Option<bool>) -> (b: bool)
    ensures
        b == files_are_out(list, effect),
{
    match effect {
        Some(ok) => list && ok,
        None => list,
    }
}

/// The drop effect that has files pasted as a copy rather than moved.
pub fn copy_effect() -> (r: [u8; 4])
    ensures
        r@ == crate::le::u32_le(1),
{
    u32_to_le(1)
}

/// Clipboard formats to look for, in this order: files first (an Explorer
/// copy also offers the path as text), then text, then the registered PNG
/// format verbatim, then a bitmap.
#[derive(Debug, Clone, Copy, PartialEq, Eq, Structural)]
pub enum Probe {
    Files,
    Text,
    Png,
    Bitmap,
}

/// What looking for a format found.
pub enum Found {
    Files(Vec<String>),
    Text(String),
    Png(Vec<u8>),
    Bitmap(Vec<u8>),
    Missing,
}

/// What comes after looking for a format.
pub enum ProbeStep {
    /// Look at these paths, then take them as content (`listed_content`).
    Measure(Vec<String>),
    /// This is the content.
    Take(Content),
    /// Look for this format.
    Look(Probe),
    /// There is nothing to take.
    GiveUp,
}

/// Decide after converting a bitmap to PNG.
pub fn take_converted(png: Option<Vec<u8>>) -> (r: ProbeStep)
    ensures
        match png {
            Some(d) => r matches ProbeStep::Take(c) && c.kind == KIND_PNG && c.data@ == d@
                && c.hash == crate::signature::content_hash_of(KIND_PNG, d@),
            None => r == ProbeStep::GiveUp,
        },
{
    match png {
        Some(d) => ProbeStep::Take(image_content(d)),
        None => ProbeStep::GiveUp,
    }
}

/// Decide after looking for a format.
pub fn after_probe(probe: Probe, found: Found) -> (r: ProbeStep)
    ensures
        match (probe, found) {
            (Probe::Files, Found::Files(list)) => if list@.len() > 0 {
                r == ProbeStep::Measure(list)
            } else {
                r == ProbeStep::Look(Probe::Text)
            },
            (Probe::Files, _) => r == ProbeStep::Look(Probe::Text),
            (Probe::Text, Found::Text(text)) => if text@.len() > 0 {
                r matches ProbeStep::Take(c) && c.kind == KIND_TEXT && c.data@
                    == vstd::utf8::encode_utf8(text@) && c.hash
                    == crate::signature::content_hash_of(KIND_TEXT, c.data@)
            } else {
                r == ProbeStep::Look(Probe::Png)
            },
            (Probe::Text, _) => r == ProbeStep::Look(Probe::Png),
            (Probe::Png, Found::Png(png)) => if png@.len() > 0 {
                r matches ProbeStep::Take(c) && c.kind == KIND_PNG && c.data@ == png@ && c.hash
                    == crate::signature::content_hash_of(KIND_PNG, png@)
            } else {
                r == ProbeStep::Look(Probe::Bitmap)
            },
            (Probe::Png, _) => r == ProbeStep::Look(Probe::Bitmap),
            (Probe::Bitmap, Found::Bitmap(bmp)) => match crate::images::png_of_bmp(bmp@) {
                Some(png) => r matches ProbeStep::Take(c) && c.kind == KIND_PNG && c.data@ == png
                    && c.hash == crate::signature::content_hash_of(KIND_PNG, png),
                None => r == ProbeStep::GiveUp,
            },
            (Probe::Bitmap, _) => r == ProbeStep::GiveUp,
        },
{
    match (probe, found) {
        (Probe::Files, Found::Files(list)) => {
            if list.len() > 0 {
                ProbeStep::Measure(list)
            } else {
                ProbeStep::Look(Probe::Text)
            }
        },
        (Probe::Files, _) => ProbeStep::Look(Probe::Text),
        (Probe::Text, Found::Text(text)) => {
            if text.as_str().unicode_len() > 0 {
                let data = vstd::slice::slice_to_vec(text.as_str().as_bytes());
                ProbeStep::Take(text_content(data))
            } else {
                ProbeStep::Look(Probe::Png)
            }
        },
        (Probe::Text, _) => ProbeStep::Look(Probe::Png),
        (Probe::Png, Found::Png(png)) => {
            if png.len() > 0 {
                ProbeStep::Take(image_content(png))
            } else {
                ProbeStep::Look(Probe::Bitmap)
            }
        },
        (Probe::Png, _) => ProbeStep::Look(Probe::Bitmap),
        (Probe::Bitmap, Found::Bitmap(bmp)) => take_converted(bmp_to_png(bmp.as_slice())),
        (Probe::Bitmap, _) => ProbeStep::GiveUp,
    }
}

/// Texts on lines of their own.
pub open spec fn joined(list: Seq<Seq<char>>) -> Seq<char>
    decreases list.len(),
{
    if list.len() == 0 {
        Seq::empty()
    } else if list.len() == 1 {
        list[0]
    } else {
        joined(list.drop_last()) + seq!['\n'] + list.last()
    }
}

fn join_lines(list: &Vec<String>) -> (s: String)
    ensures
        s@ == joined(crate::uri::texts(list@)),
{
    let mut s = String::new();
    let ghost all = crate::uri::texts(list@);
    let mut i: usize = 0;
    assert(s@ =~= joined(all.take(0)));
    while i < list.len()
        invariant
            i <= list@.len(),
            all == crate::uri::texts(list@),
            s@ == joined(all.take(i as int)),
        decreases list.len() - i,
    {
        let ghost before = s@;
        let ghost done = all.take(i + 1);
        assert(done.drop_last() =~= all.take(i as int));
        assert(done.last() == list@[i as int]@);
        if i > 0 {
            s.push('\n');
        }
        push_str(&mut s, list[i].as_str());
        assert(s@ =~= joined(done));
        i += 1;
    }
    assert(all.take(i as int) =~= all);
    s
}

/// File content: the path list, with a hash from what is on disk under its
/// paths. Nothing if any of it is unreadable.
pub fn listed_content(list: &Vec<String>, batch: &[Node]) -> (r: Option<Content>)
    ensures
        match crate::offers::batch_hash(batch@) {
            Some(h) => r matches Some(c) && c.kind == KIND_TAR && c.data@
                == vstd::utf8::encode_utf8(joined(crate::uri::texts(list@))) && c.hash == h,
            None => r is None,
        },
{
    match hash_batch(batch) {
        Some(hash) => {
            let s = join_lines(list);
            let data = vstd::slice::slice_to_vec(s.as_str().as_bytes());
            Some(Content { kind: KIND_TAR, data, hash })
        },
        None => None,
    }
}

/// What a change of the clipboard calls for.
pub enum CopyStep {
    /// We sent or set this ourselves.
    Ignore,
    /// Files: look at these paths, then offer them.
    Measure(Vec<String>),
    /// Anything else: send it now.
    SendNow,
}

/// What a change of the clipboard calls for.
#[verifier::ext_equal]
pub enum CopyStepView {
    Ignore,
    Measure(Seq<Seq<char>>),
    SendNow,
}

impl View for CopyStep {
    type V = CopyStepView;

    open spec fn view(&self) -> CopyStepView {
        match *self {
            CopyStep::Ignore => CopyStepView::Ignore,
            CopyStep::Measure(paths) => CopyStepView::Measure(crate::uri::texts(paths@)),
            CopyStep::SendNow => CopyStepView::SendNow,
        }
    }
}

impl HelperView {
    pub open spec fn wf(self) -> bool {
        self.reasm.wf()
    }

    /// Whether content with this hash is our own echo.
    pub open spec fn is_echo(self, hash: u64) -> bool {
        hash == self.last_sent || hash == self.last_set
    }

    /// What a report calls for. ACKs go straight to the sender.
    pub open spec fn on_report(self, raw: Seq<u8>) -> (HelperView, ReportStepView) {
        match crate::clipframe::acked(raw) {
            Some(n) => (self, ReportStepView::Acked(n)),
            None => {
                let (reasm, fed) = crate::reassembly::feed_step(self.reasm, raw);
                let s = HelperView { reasm, ..self };
                match fed {
                    Fed::Nothing => (s, ReportStepView::Nothing),
                    Fed::Ping => (
                        s,
                        ReportStepView::Answer(
                            crate::clipframe::frame_bytes(
                                crate::clipframe::T_PONG,
                                0,
                                Seq::empty(),
                            ),
                        ),
                    ),
                    Fed::Progress(n) => if n % crate::clipframe::ACK_EVERY == 0 {
                        (
                            s,
                            ReportStepView::Ack(
                                n,
                                crate::clipframe::frame_bytes(
                                    crate::clipframe::T_ACK,
                                    0,
                                    crate::le::u32_le(n),
                                ),
                            ),
                        )
                    } else {
                        (s, ReportStepView::Nothing)
                    },
                    Fed::Complete(kind, data) => (s, ReportStepView::Apply(kind, data)),
                    Fed::Offer(o) => (s, ReportStepView::Offered(o)),
                    Fed::Pull(id) => (
                        HelperView { pull_request: Some(id), ..s },
                        ReportStepView::Nothing,
                    ),
                    Fed::Error(e) => (s, ReportStepView::ProtocolError(e)),
                }
            },
        }
    }

    /// What a change of the clipboard calls for.
    pub open spec fn copied(self, kind: u8, content: Seq<u8>, hash: u64) -> (
        HelperView,
        CopyStepView,
    ) {
        if self.is_echo(hash) {
            (self, CopyStepView::Ignore)
        } else if kind == KIND_TAR {
            (
                self,
                CopyStepView::Measure(crate::text::lines_of(crate::text::read_utf8(content))),
            )
        } else {
            // A new local copy supersedes any file offer.
            (HelperView { local_offer: None, ..self }, CopyStepView::SendNow)
        }
    }

    /// What the pull that waits comes to. It is waited for no longer.
    pub open spec fn pull_taken(self) -> (HelperView, PullStepView) {
        (
            HelperView { pull_request: None, ..self },
            match (self.pull_request, self.local_offer) {
                (None, _) => PullStepView::Nothing,
                (Some(id), Some(lo)) => if lo.id == id {
                    PullStepView::Push(lo.paths)
                } else {
                    PullStepView::Stale(id)
                },
                (Some(id), None) => PullStepView::Stale(id),
            },
        )
    }

    /// How sending the offered batch ended: once sent, the offer is used up.
    pub open spec fn after_push(self, sent: bool) -> HelperView {
        if sent {
            HelperView { local_offer: None, ..self }
        } else {
            self
        }
    }
}

/// What a pull that waited comes to.
pub enum PullStep {
    /// None is waiting.
    Nothing,
    /// Pack these paths and send them.
    Push(Vec<String>),
    /// It names an offer that we no longer hold.
    Stale(u32),
}

/// What a pull that waited comes to.
#[verifier::ext_equal]
pub enum PullStepView {
    Nothing,
    Push(Seq<Seq<char>>),
    Stale(u32),
}

impl View for PullStep {
    type V = PullStepView;

    open spec fn view(&self) -> PullStepView {
        match *self {
            PullStep::Nothing => PullStepView::Nothing,
            PullStep::Push(paths) => PullStepView::Push(crate::uri::texts(paths@)),
            PullStep::Stale(id) => PullStepView::Stale(id),
        }
    }
}

fn copy_texts(v: &Vec<String>) -> (r: Vec<String>)
    ensures
        crate::uri::texts(r@) == crate::uri::texts(v@),
{
    let mut r: Vec<String> = Vec::new();
    let mut i: usize = 0;
    while i < v.len()
        invariant
            i <= v@.len(),
            r@.len() == i,
            forall|j: int| 0 <= j < i ==> (#[trigger] r@[j])@ == v@[j]@,
        decreases v.len() - i,
    {
        r.push(v[i].clone());
        i += 1;
    }
    assert(crate::uri::texts(r@) =~= crate::uri::texts(v@));
    r
}

impl Helper {
    /// Start with the clipboard as it is.
    pub fn new(seq: u32) -> (h: Helper)
        ensures
            h@ == (HelperView {
                last_sent: 0,
                last_set: 0,
                local_offer: None,
                pull_request: None,
                last_seq: seq,
                reasm: ReassemblerView { active: None, data_frames: 0 },
            }),
            h@.wf(),
    {
        Helper {
            last_sent: 0,
            last_set: 0,
            local_offer: None,
            pull_request: None,
            last_seq: seq,
            reasm: Reassembler::default(),
        }
    }

    /// (bytes received, total bytes) of the transfer in progress, if any.
    pub fn status(&self) -> (r: Option<(usize, u32)>)
        ensures
            match self@.reasm.active {
                Some(a) => r matches Some(s) && s.0 == a.data.len() && s.1 == a.total,
                None => r is None,
            },
    {
        self.reasm.status()
    }

    /// A report arrived.
    pub fn on_report(&mut self, raw: &[u8; FRAME_LEN]) -> (r: ReportStep)
        requires
            old(self)@.wf(),
        ensures
            (final(self)@, r@) == old(self)@.on_report(raw@),
            final(self)@.wf(),
    {
        if let Some(n) = parse_ack(raw) {
            return ReportStep::Acked(n);
        }
        match self.reasm.feed(raw) {
            FeedResult::Nothing => ReportStep::Nothing,
            FeedResult::Ping => ReportStep::Answer(pong_frame()),
            FeedResult::Progress(n) => {
                if ack_due(n) {
                    ReportStep::Ack(n, ack_frame(n))
                } else {
                    ReportStep::Nothing
                }
            },
            FeedResult::Complete(kind, data) => ReportStep::Apply(kind, data),
            FeedResult::Offer(o) => ReportStep::Offered(o),
            FeedResult::Pull(id) => {
                self.pull_request = Some(id);
                ReportStep::Nothing
            },
            FeedResult::Error(e) => ReportStep::ProtocolError(e),
        }
    }

    /// Take up the pull that waits, if one does.
    pub fn take_pull(&mut self) -> (r: PullStep)
        requires
            old(self)@.wf(),
        ensures
            (final(self)@, r@) == old(self)@.pull_taken(),
            final(self)@.wf(),
    {
        match self.pull_request.take() {
            Some(id) => match &self.local_offer {
                Some(lo) => {
                    if lo.id == id {
                        PullStep::Push(copy_texts(&lo.paths))
                    } else {
                        PullStep::Stale(id)
                    }
                },
                None => PullStep::Stale(id),
            },
            None => PullStep::Nothing,
        }
    }

    /// How sending the offered batch went: once sent, the offer is used up.
    pub fn push_ended(&mut self, sent: bool)
        requires
            old(self)@.wf(),
        ensures
            final(self)@ == old(self)@.after_push(sent),
            final(self)@.wf(),
    {
        if sent {
            self.local_offer = None;
        }
    }

    /// Whether the clipboard has changed since it was last looked at.
    pub fn seq_changed(&mut self, seq: u32) -> (b: bool)
        requires
            old(self)@.wf(),
        ensures
            b == (seq != old(self)@.last_seq),
            final(self)@ == (HelperView { last_seq: seq, ..old(self)@ }),
            final(self)@.wf(),
    {
        if seq == self.last_seq {
            return false;
        }
        self.last_seq = seq;
        true
    }

    /// The clipboard holds something new.
    pub fn copied(&mut self, kind: u8, content: &[u8], hash: u64) -> (r: CopyStep)
        requires
            old(self)@.wf(),
        ensures
            (final(self)@, r@) == old(self)@.copied(kind, content@, hash),
            final(self)@.wf(),
    {
        if hash == self.last_sent || hash == self.last_set {
            return CopyStep::Ignore;
        }
        if kind == KIND_TAR {
            return CopyStep::Measure(text_lines(text_of(content).as_str()));
        }
        self.local_offer = None;
        CopyStep::SendNow
    }

    /// An offer went out for these paths.
    pub fn offered(&mut self, offer: &Offer, paths: Vec<String>, hash: u64)
        requires
            old(self)@.wf(),
        ensures
            final(self)@ == (HelperView {
                local_offer: Some(
                    LocalOfferView { id: offer.id, paths: crate::uri::texts(paths@) },
                ),
                last_sent: hash,
                ..old(self)@
            }),
            final(self)@.wf(),
    {
        self.local_offer = Some(LocalOffer { id: offer.id, paths });
        self.last_sent = hash;
    }

    /// Content was sent, or given up: it is not tried again until it changes.
    pub fn sent(&mut self, hash: u64)
        requires
            old(self)@.wf(),
        ensures
            final(self)@ == (HelperView { last_sent: hash, ..old(self)@ }),
            final(self)@.wf(),
    {
        self.last_sent = hash;
    }

    /// Text or an image is on the clipboard now: remember it as ours.
    pub fn content_set(&mut self, kind: u8, data: &[u8])
        requires
            old(self)@.wf(),
        ensures
            final(self)@ == (HelperView {
                last_set: crate::signature::content_hash_of(kind, data@),
                ..old(self)@
            }),
            final(self)@.wf(),
    {
        self.last_set = content_hash(kind, data);
    }

    /// A received batch is on the clipboard now: remember it as ours.
    pub fn files_set(&mut self, staged: &[Node])
        requires
            old(self)@.wf(),
        ensures
            final(self)@ == (HelperView {
                last_set: match crate::offers::batch_hash(staged@) {
                    Some(h) => h,
                    None => old(self)@.last_set,
                },
                ..old(self)@
            }),
            final(self)@.wf(),
    {
        if let Some(h) = hash_batch(staged) {
            self.last_set = h;
        }
    }
}

} // verus!
