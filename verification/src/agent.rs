//! The desktop clipboard agent: syncs the local clipboard with the other
//! machine through the data relay.
//!
//! Text and images are eager (small, and eager makes paste instant).
//! Files are lazy: a copy sends only an OFFER; the bytes move when the
//! user crosses over to the other machine or asks explicitly. Copies that
//! never cross machines never transfer.
//!
//! Echo loops are broken by hashing what we last sent and last set locally.

use vstd::prelude::*;

use crate::clipframe::{
    ack_frame, pong_frame, pull_frame, Offer, FRAME_LEN, KIND_PNG, KIND_TAR, KIND_TEXT,
};
use crate::files::Node;
use crate::flow::{ack_due, AfterAttempt};
use crate::offers::{hash_batch, LocalOffer, LocalOfferView};
use crate::reassembly::{FeedResult, Fed, Reassembler, ReassemblerView};
use crate::signature::content_hash;
use crate::text::{chars_of, same_text, string_of, text_of, to_lf, trim};
use crate::uri::parse_file_list;

verus! {

/// What the other machine currently offers to us, and whether we have asked
/// for it.
#[derive(Debug, Clone, Copy, PartialEq, Eq)]
pub struct RemoteOffer {
    pub offer: Offer,
    pub requested: bool,
}

/// The agent's memory.
pub struct Agent {
    last_sent: u64,
    last_set: u64,
    local_offer: Option<LocalOffer>,
    remote_offer: Option<RemoteOffer>,
    reasm: Reassembler,
}

/// The agent's memory: the hashes of what was last sent and last set, what
/// each side offers, and the transfer in progress.
#[verifier::ext_equal]
pub struct AgentView {
    pub last_sent: u64,
    pub last_set: u64,
    pub local_offer: Option<LocalOfferView>,
    pub remote_offer: Option<RemoteOffer>,
    pub reasm: ReassemblerView,
}

impl View for Agent {
    type V = AgentView;

    closed spec fn view(&self) -> AgentView {
        AgentView {
            last_sent: self.last_sent,
            last_set: self.last_set,
            local_offer: crate::offers::offer_view(self.local_offer),
            remote_offer: self.remote_offer,
            reasm: self.reasm@,
        }
    }
}

/// What a change of the local clipboard calls for.
pub enum LocalStep {
    /// We sent or set this ourselves.
    Ignore,
    /// Files: look at these paths, then offer them.
    Measure(Vec<String>),
    /// Anything else: send it now.
    SendNow,
}

/// What a change of the local clipboard calls for.
#[verifier::ext_equal]
pub enum LocalStepView {
    Ignore,
    Measure(Seq<Seq<char>>),
    SendNow,
}

impl View for LocalStep {
    type V = LocalStepView;

    open spec fn view(&self) -> LocalStepView {
        match *self {
            LocalStep::Ignore => LocalStepView::Ignore,
            LocalStep::Measure(paths) => LocalStepView::Measure(crate::uri::texts(paths@)),
            LocalStep::SendNow => LocalStepView::SendNow,
        }
    }
}

/// What a frame from the other side calls for.
pub enum FrameStep {
    Nothing,
    /// Write this frame back; failing is found out elsewhere.
    Answer([u8; FRAME_LEN]),
    /// Acknowledge DATA frames up to this count with the frame.
    Ack(u32, [u8; FRAME_LEN]),
    /// The other side offers something: tell the user.
    Offered(Offer),
    /// The other side wants what we offer: pack and send it.
    Push,
    /// A pull for an offer that we no longer hold.
    StalePull(u32),
    /// Put this text on the clipboard.
    SetText(String),
    /// Put this image on the clipboard.
    SetImage(Vec<u8>),
    /// Unpack this batch, and put its paths on the clipboard.
    Unpack(Vec<u8>),
    /// A transfer of a kind that we do not know.
    Unsupported(u8),
    ProtocolError(&'static str),
}

/// What a frame from the other side calls for.
#[verifier::ext_equal]
pub enum FrameStepView {
    Nothing,
    Answer(Seq<u8>),
    Ack(u32, Seq<u8>),
    Offered(Offer),
    Push,
    StalePull(u32),
    SetText(Seq<char>),
    SetImage(Seq<u8>),
    Unpack(Seq<u8>),
    Unsupported(u8),
    ProtocolError(Seq<char>),
}

impl View for FrameStep {
    type V = FrameStepView;

    open spec fn view(&self) -> FrameStepView {
        match *self {
            FrameStep::Nothing => FrameStepView::Nothing,
            FrameStep::Answer(f) => FrameStepView::Answer(f@),
            FrameStep::Ack(n, f) => FrameStepView::Ack(n, f@),
            FrameStep::Offered(o) => FrameStepView::Offered(o),
            FrameStep::Push => FrameStepView::Push,
            FrameStep::StalePull(id) => FrameStepView::StalePull(id),
            FrameStep::SetText(s) => FrameStepView::SetText(s@),
            FrameStep::SetImage(d) => FrameStepView::SetImage(d@),
            FrameStep::Unpack(d) => FrameStepView::Unpack(d@),
            FrameStep::Unsupported(k) => FrameStepView::Unsupported(k),
            FrameStep::ProtocolError(e) => FrameStepView::ProtocolError(e@),
        }
    }
}

/// A message to the agent, from the router or the command line.
#[derive(Debug, Clone, Copy, PartialEq, Eq, Structural)]
pub enum Control {
    /// Input went to the other machine.
    Remote,
    /// Input came back.
    Local,
    /// The user asks for pending files, in whichever direction.
    Pull,
    Unknown,
}

/// The message that a text stands for.
pub open spec fn control_of(text: Seq<char>) -> Control {
    if text == "remote"@ {
        Control::Remote
    } else if text == "local"@ {
        Control::Local
    } else if text == "pull"@ {
        Control::Pull
    } else {
        Control::Unknown
    }
}

pub fn parse_control(text: &str) -> (c: Control)
    ensures
        c == control_of(text@),
{
    if same_text(text, "remote") {
        Control::Remote
    } else if same_text(text, "local") {
        Control::Local
    } else if same_text(text, "pull") {
        Control::Pull
    } else {
        Control::Unknown
    }
}

/// The message in a datagram: its text, without the white space around it.
pub fn read_control(bytes: &[u8]) -> (c: Control)
    ensures
        c == control_of(crate::text::trimmed(crate::text::read_utf8(bytes@))),
{
    let text = text_of(bytes);
    parse_control(string_of(trim(chars_of(text.as_str()).as_slice()).as_slice()).as_str())
}

/// How sending something to the other side went.
#[derive(Debug, Clone, Copy, PartialEq, Eq, Structural)]
pub enum PushEnd {
    Sent,
    /// The relay connection is gone.
    Lost,
    /// Not sent, but the connection is fine.
    Failed,
}

/// How an attempt that is not repeated leaves a transfer; nothing while it
/// is.
pub fn push_end(a: AfterAttempt) -> (r: Option<PushEnd>)
    ensures
        r == match a {
            AfterAttempt::Sent => Some(PushEnd::Sent),
            AfterAttempt::Lost => Some(PushEnd::Lost),
            AfterAttempt::Abandon => Some(PushEnd::Failed),
            AfterAttempt::Retry => None,
        },
{
    match a {
        AfterAttempt::Sent => Some(PushEnd::Sent),
        AfterAttempt::Lost => Some(PushEnd::Lost),
        AfterAttempt::Abandon => Some(PushEnd::Failed),
        AfterAttempt::Retry => None,
    }
}

impl AgentView {
    pub open spec fn wf(self) -> bool {
        self.reasm.wf()
    }

    /// Whether content with this hash is our own echo.
    pub open spec fn is_echo(self, hash: u64) -> bool {
        hash == self.last_sent || hash == self.last_set
    }

    /// What a change of the local clipboard calls for.
    pub open spec fn local_changed(self, kind: u8, content: Seq<u8>, hash: u64) -> (
        AgentView,
        LocalStepView,
    ) {
        if self.is_echo(hash) {
            (self, LocalStepView::Ignore)
        } else if kind == KIND_TAR {
            (
                self,
                LocalStepView::Measure(
                    crate::uri::paths_of_lines(
                        crate::text::lines_of(crate::text::read_utf8(content)),
                    ),
                ),
            )
        } else {
            // A new local copy supersedes any file offer.
            (AgentView { local_offer: None, ..self }, LocalStepView::SendNow)
        }
    }

    /// What a completed transfer calls for.
    pub open spec fn completed(kind: u8, data: Seq<u8>) -> FrameStepView {
        if kind == KIND_TEXT {
            FrameStepView::SetText(crate::text::lf(crate::text::read_utf8(data)))
        } else if kind == KIND_PNG {
            FrameStepView::SetImage(data)
        } else if kind == KIND_TAR {
            FrameStepView::Unpack(data)
        } else {
            FrameStepView::Unsupported(kind)
        }
    }

    /// What a frame calls for.
    pub open spec fn on_frame(self, raw: Seq<u8>) -> (AgentView, FrameStepView) {
        let (reasm, fed) = crate::reassembly::feed_step(self.reasm, raw);
        let s = AgentView { reasm, ..self };
        match fed {
            Fed::Nothing => (s, FrameStepView::Nothing),
            Fed::Ping => (
                s,
                FrameStepView::Answer(
                    crate::clipframe::frame_bytes(crate::clipframe::T_PONG, 0, Seq::empty()),
                ),
            ),
            Fed::Progress(n) => if n % crate::clipframe::ACK_EVERY == 0 {
                (
                    s,
                    FrameStepView::Ack(
                        n,
                        crate::clipframe::frame_bytes(
                            crate::clipframe::T_ACK,
                            0,
                            crate::le::u32_le(n),
                        ),
                    ),
                )
            } else {
                (s, FrameStepView::Nothing)
            },
            Fed::Offer(offer) => (
                AgentView { remote_offer: Some(RemoteOffer { offer, requested: false }), ..s },
                FrameStepView::Offered(offer),
            ),
            Fed::Pull(id) => match self.local_offer {
                Some(lo) => if lo.id == id {
                    (s, FrameStepView::Push)
                } else {
                    (s, FrameStepView::StalePull(id))
                },
                None => (s, FrameStepView::StalePull(id)),
            },
            Fed::Complete(kind, data) => (s, AgentView::completed(kind, data)),
            Fed::Error(e) => (s, FrameStepView::ProtocolError(e)),
        }
    }

    /// Whether a control message asks for our offer to be sent.
    pub open spec fn wants_push(c: Control) -> bool {
        c == Control::Remote || c == Control::Pull
    }

    /// Whether a control message has us ask for the other side's offer: on
    /// coming back once, on request every time.
    pub open spec fn wants_pull(self, c: Control) -> bool {
        match self.remote_offer {
            Some(ro) => c == Control::Pull || (c == Control::Local && !ro.requested),
            None => false,
        }
    }

    /// Our offer, taken out to be sent if a message asks for that.
    pub open spec fn taken_out(self, c: Control) -> (AgentView, Option<LocalOfferView>) {
        if AgentView::wants_push(c) {
            (AgentView { local_offer: None, ..self }, self.local_offer)
        } else {
            (self, None)
        }
    }

    /// How sending an offer that was taken out ended: one that failed while
    /// the connection is fine is on offer again.
    pub open spec fn after_push(self, offer: LocalOfferView, end: PushEnd) -> AgentView {
        if end == PushEnd::Failed {
            AgentView { local_offer: Some(offer), ..self }
        } else {
            self
        }
    }

    /// How serving a pull ended: once sent, the offer is used up.
    pub open spec fn after_serving(self, end: PushEnd) -> AgentView {
        if end == PushEnd::Sent {
            AgentView { local_offer: None, ..self }
        } else {
            self
        }
    }

    /// How sending content ended: sent or given up, it is not tried again.
    pub open spec fn after_send(self, end: PushEnd, hash: u64) -> AgentView {
        if end != PushEnd::Lost {
            AgentView { last_sent: hash, ..self }
        } else {
            self
        }
    }

    /// The other side's offer, asked for if a message calls for that: the
    /// offer and the PULL to send for it.
    pub open spec fn asked(self, c: Control) -> (AgentView, Option<(Offer, Seq<u8>)>) {
        if self.wants_pull(c) {
            let ro = self.remote_offer->0;
            (
                AgentView {
                    remote_offer: Some(RemoteOffer { requested: true, ..ro }),
                    ..self
                },
                Some(
                    (
                        ro.offer,
                        crate::clipframe::frame_bytes(
                            crate::clipframe::T_PULL,
                            0,
                            crate::le::u32_le(ro.offer.id),
                        ),
                    ),
                ),
            )
        } else {
            (self, None)
        }
    }
}

/// An offer and its PULL, with the bytes of the frame.
pub open spec fn asked_view(r: Option<(Offer, [u8; FRAME_LEN])>) -> Option<(Offer, Seq<u8>)> {
    match r {
        Some((offer, f)) => Some((offer, f@)),
        None => None,
    }
}

impl Agent {
    pub fn new() -> (a: Agent)
        ensures
            a@ == (AgentView {
                last_sent: 0,
                last_set: 0,
                local_offer: None,
                remote_offer: None,
                reasm: ReassemblerView { active: None, data_frames: 0 },
            }),
            a@.wf(),
    {
        Agent {
            last_sent: 0,
            last_set: 0,
            local_offer: None,
            remote_offer: None,
            reasm: Reassembler::default(),
        }
    }

    /// A new connection starts with no transfer in progress; the rest is
    /// remembered.
    pub fn reconnected(&mut self)
        ensures
            final(self)@ == (AgentView {
                reasm: ReassemblerView { active: None, data_frames: 0 },
                ..old(self)@
            }),
            final(self)@.wf(),
    {
        self.reasm = Reassembler::default();
    }

    /// (bytes received, total bytes) of the transfer in progress, if any.
    pub fn status(&self) -> (r: Option<(usize, u32)>)
        ensures
            match self@.reasm.active {
                Some(a) => r matches Some(s) && s.0 == a.data.len() && s.1 == a.total,
                None => r is None,
            },
    {
        self.reasm.status()
    }

    /// The local clipboard changed.
    pub fn local_changed(&mut self, kind: u8, content: &[u8], hash: u64) -> (r: LocalStep)
        requires
            old(self)@.wf(),
        ensures
            (final(self)@, r@) == old(self)@.local_changed(kind, content@, hash),
            final(self)@.wf(),
    {
        if hash == self.last_sent || hash == self.last_set {
            return LocalStep::Ignore;
        }
        if kind == KIND_TAR {
            return LocalStep::Measure(parse_file_list(content));
        }
        self.local_offer = None;
        LocalStep::SendNow
    }

    /// An offer went out for these paths.
    pub fn offered(&mut self, offer: &Offer, paths: Vec<String>, hash: u64)
        requires
            old(self)@.wf(),
        ensures
            final(self)@ == (AgentView {
                local_offer: Some(
                    LocalOfferView { id: offer.id, paths: crate::uri::texts(paths@) },
                ),
                last_sent: hash,
                ..old(self)@
            }),
            final(self)@.wf(),
    {
        self.local_offer = Some(LocalOffer { id: offer.id, paths });
        self.last_sent = hash;
    }

    /// How sending content went: sent or given up, it is not tried again
    /// until it changes. Tells whether the connection is still there.
    pub fn send_ended(&mut self, end: PushEnd, hash: u64) -> (go_on: bool)
        requires
            old(self)@.wf(),
        ensures
            go_on == (end != PushEnd::Lost),
            final(self)@ == old(self)@.after_send(end, hash),
            final(self)@.wf(),
    {
        if end == PushEnd::Lost {
            return false;
        }
        self.last_sent = hash;
        true
    }

    /// A frame arrived from the other side.
    pub fn on_frame(&mut self, raw: &[u8; FRAME_LEN]) -> (r: FrameStep)
        requires
            old(self)@.wf(),
        ensures
            (final(self)@, r@) == old(self)@.on_frame(raw@),
            final(self)@.wf(),
    {
        match self.reasm.feed(raw) {
            FeedResult::Nothing => FrameStep::Nothing,
            FeedResult::Ping => FrameStep::Answer(pong_frame()),
            FeedResult::Progress(n) => {
                if ack_due(n) {
                    FrameStep::Ack(n, ack_frame(n))
                } else {
                    FrameStep::Nothing
                }
            },
            FeedResult::Offer(offer) => {
                self.remote_offer = Some(RemoteOffer { offer, requested: false });
                FrameStep::Offered(offer)
            },
            FeedResult::Pull(id) => match &self.local_offer {
                Some(lo) => {
                    if lo.id == id {
                        FrameStep::Push
                    } else {
                        FrameStep::StalePull(id)
                    }
                },
                None => FrameStep::StalePull(id),
            },
            FeedResult::Complete(kind, data) => {
                if kind == KIND_TEXT {
                    FrameStep::SetText(to_lf(text_of(data.as_slice()).as_str()))
                } else if kind == KIND_PNG {
                    FrameStep::SetImage(data)
                } else if kind == KIND_TAR {
                    FrameStep::Unpack(data)
                } else {
                    FrameStep::Unsupported(kind)
                }
            },
            FeedResult::Error(e) => FrameStep::ProtocolError(e),
        }
    }

    /// The paths that we offer, if any.
    pub fn offered_paths(&self) -> (r: Option<&Vec<String>>)
        ensures
            match self@.local_offer {
                Some(lo) => r matches Some(p) && crate::uri::texts(p@) == lo.paths,
                None => r is None,
            },
    {
        match &self.local_offer {
            Some(lo) => Some(&lo.paths),
            None => None,
        }
    }

    /// How serving a pull for our offer went: once sent, the offer is used
    /// up. Tells whether the connection is still there.
    pub fn pull_served(&mut self, end: PushEnd) -> (go_on: bool)
        requires
            old(self)@.wf(),
        ensures
            go_on == (end != PushEnd::Lost),
            final(self)@ == old(self)@.after_serving(end),
            final(self)@.wf(),
    {
        if end == PushEnd::Sent {
            self.local_offer = None;
        }
        end != PushEnd::Lost
    }

    /// Text or an image is on the clipboard now: remember it as ours.
    pub fn content_set(&mut self, kind: u8, data: &[u8])
        requires
            old(self)@.wf(),
        ensures
            final(self)@ == (AgentView {
                last_set: crate::signature::content_hash_of(kind, data@),
                ..old(self)@
            }),
            final(self)@.wf(),
    {
        self.last_set = content_hash(kind, data);
    }

    /// A received batch is on the clipboard now: remember it as ours, and
    /// the offer it came from is used up.
    pub fn files_set(&mut self, staged: &[Node])
        requires
            old(self)@.wf(),
        ensures
            final(self)@ == (AgentView {
                last_set: match crate::offers::batch_hash(staged@) {
                    Some(h) => h,
                    None => old(self)@.last_set,
                },
                remote_offer: None,
                ..old(self)@
            }),
            final(self)@.wf(),
    {
        if let Some(h) = hash_batch(staged) {
            self.last_set = h;
        }
        self.remote_offer = None;
    }

    /// Take our offer out to push it, if the message asks for that.
    pub fn take_push(&mut self, c: Control) -> (r: Option<LocalOffer>)
        requires
            old(self)@.wf(),
        ensures
            (final(self)@, crate::offers::offer_view(r)) == old(self)@.taken_out(c),
            final(self)@.wf(),
    {
        if c == Control::Remote || c == Control::Pull {
            self.local_offer.take()
        } else {
            None
        }
    }

    /// How pushing the offer that was taken out went: one that failed while
    /// the connection is fine stays on offer. Tells whether the connection
    /// is still there.
    pub fn push_ended(&mut self, offer: LocalOffer, end: PushEnd) -> (go_on: bool)
        requires
            old(self)@.wf(),
        ensures
            go_on == (end != PushEnd::Lost),
            final(self)@ == old(self)@.after_push(offer@, end),
            final(self)@.wf(),
    {
        if end == PushEnd::Failed {
            self.local_offer = Some(offer);
        }
        end != PushEnd::Lost
    }

    /// The PULL to send for the other side's offer, if the message asks for
    /// one.
    pub fn request(&mut self, c: Control) -> (r: Option<(Offer, [u8; FRAME_LEN])>)
        requires
            old(self)@.wf(),
        ensures
            (final(self)@, asked_view(r)) == old(self)@.asked(c),
            final(self)@.wf(),
    {
        match self.remote_offer {
            Some(ro) => {
                if c == Control::Pull || (c == Control::Local && !ro.requested) {
                    self.remote_offer = Some(RemoteOffer { offer: ro.offer, requested: true });
                    Some((ro.offer, pull_frame(ro.offer.id)))
                } else {
                    None
                }
            },
            None => None,
        }
    }
}

} // verus!
