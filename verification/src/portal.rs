//! What the InputCapture portal client decides: where barriers go, which
//! flow a portal supports, how requests are named, and what replies mean.

use vstd::prelude::*;

use crate::decimal::push_decimal;
use crate::text::{chars_of, ends_with, push_str, same_text, string_of, trim};

verus! {

pub const CAP_KEYBOARD: u32 = 1;

pub const CAP_POINTER: u32 = 2;

/// What we ask to capture: keyboard and pointer.
pub const CAPABILITIES: u32 = 3;

/// The id of the one barrier that we place.
pub const BARRIER_ID: u32 = 1;

/// A local screen area, as the compositor reports it.
#[derive(Debug, Clone, Copy, PartialEq, Eq)]
pub struct Zone {
    pub width: u32,
    pub height: u32,
    pub x: i32,
    pub y: i32,
}

/// A barrier line from one point to another.
pub type Line = (i32, i32, i32, i32);

impl Zone {
    /// Whether every corner of the zone has coordinates.
    pub open spec fn spec_fits(self) -> bool {
        &&& self.width <= i32::MAX
        &&& self.height <= i32::MAX
        &&& self.x + self.width <= i32::MAX
        &&& i32::MIN < self.x + self.width
        &&& self.y + self.height <= i32::MAX
        &&& i32::MIN < self.y + self.height
    }

    pub fn fits(&self) -> (b: bool)
        ensures
            b == self.spec_fits(),
    {
        let right: i64 = self.x as i64 + self.width as i64;
        let bottom: i64 = self.y as i64 + self.height as i64;
        self.width <= 0x7fff_ffff && self.height <= 0x7fff_ffff && right <= 0x7fff_ffff
            && -0x8000_0000 < right && bottom <= 0x7fff_ffff && -0x8000_0000 < bottom
    }

    /// Lines along the right edge of a zone, by the conventions that
    /// compositors have for a boundary: just outside the last column, in the
    /// last column, and just outside with the bottom row included.
    pub open spec fn right_edges(self) -> Seq<Line> {
        let right = self.x + self.width;
        let bottom = self.y + self.height;
        seq![
            (right as i32, self.y, right as i32, (bottom - 1) as i32),
            ((right - 1) as i32, self.y, (right - 1) as i32, (bottom - 1) as i32),
            (right as i32, self.y, right as i32, bottom as i32),
        ]
    }

    /// Candidates for the right-edge barrier, in the order to try them.
    pub fn barrier_candidates(&self) -> (c: [Line; 3])
        requires
            self.spec_fits(),
        ensures
            c@ == self.right_edges(),
    {
        let w: i32 = self.width as i32;
        let h: i32 = self.height as i32;
        let right: i32 = self.x + w;
        let bottom: i32 = self.y + h;
        let c = [
            (right, self.y, right, bottom - 1),
            (right - 1, self.y, right - 1, bottom - 1),
            (right, self.y, right, bottom),
        ];
        assert(c@ =~= self.right_edges());
        c
    }
}

/// What placing the barrier comes to next.
#[derive(Debug, Clone, Copy, PartialEq, Eq)]
pub enum ArmStep {
    /// Ask the compositor for this barrier.
    Try(Line),
    /// The compositor took the barrier.
    Armed(Line),
    /// The compositor rejected all candidates.
    GiveUp,
}

/// Placing the right-edge barrier: compositors differ on the exact boundary
/// coordinate convention, so candidates are tried until one sticks.
pub struct Arming {
    candidates: [Line; 3],
    tried: usize,
}

/// The candidates, and which of them is being tried.
#[verifier::ext_equal]
pub struct ArmingView {
    pub candidates: Seq<Line>,
    pub tried: nat,
}

impl View for Arming {
    type V = ArmingView;

    closed spec fn view(&self) -> ArmingView {
        ArmingView { candidates: self.candidates@, tried: self.tried as nat }
    }
}

impl ArmingView {
    pub open spec fn wf(self) -> bool {
        self.candidates.len() == 3 && self.tried < 3
    }

    /// What follows the compositor's answer.
    pub open spec fn answered(self, failed: nat) -> ArmStep {
        if failed == 0 {
            ArmStep::Armed(self.candidates[self.tried as int])
        } else if self.tried + 1 < self.candidates.len() {
            ArmStep::Try(self.candidates[self.tried as int + 1])
        } else {
            ArmStep::GiveUp
        }
    }
}

impl Arming {
    /// Start with the first candidate.
    pub fn start(zone: &Zone) -> (r: (Arming, ArmStep))
        requires
            zone.spec_fits(),
        ensures
            r.0@ == (ArmingView { candidates: zone.right_edges(), tried: 0 }),
            r.1 == ArmStep::Try(zone.right_edges()[0]),
            r.0@.wf(),
    {
        let candidates = zone.barrier_candidates();
        let first = candidates[0];
        (Arming { candidates, tried: 0 }, ArmStep::Try(first))
    }

    /// The compositor answered with how many barriers it rejected.
    pub fn answered(&mut self, failed: usize) -> (s: ArmStep)
        requires
            old(self)@.wf(),
        ensures
            s == old(self)@.answered(failed as nat),
            final(self)@ == if s is Try {
                ArmingView { tried: old(self)@.tried + 1, ..old(self)@ }
            } else {
                old(self)@
            },
            final(self)@.wf(),
    {
        if failed == 0 {
            return ArmStep::Armed(self.candidates[self.tried]);
        }
        if self.tried + 1 < 3 {
            self.tried += 1;
            return ArmStep::Try(self.candidates[self.tried]);
        }
        ArmStep::GiveUp
    }
}

/// A text without the colons in front.
pub open spec fn without_colons(s: Seq<char>) -> Seq<char>
    decreases s.len(),
{
    if s.len() > 0 && s[0] == ':' {
        without_colons(s.skip(1))
    } else {
        s
    }
}

/// A bus name as it stands in a request path: no colons in front, and
/// underscores for dots.
pub open spec fn sender_part(unique: Seq<char>) -> Seq<char> {
    without_colons(unique).map_values(
        |c: char|
            if c == '.' {
                '_'
            } else {
                c
            },
    )
}

/// The token of a request.
pub open spec fn token_text(n: nat) -> Seq<char> {
    "bw"@ + crate::decimal::decimal(n)
}

/// The path on which the answer to a request arrives.
pub open spec fn request_path_text(unique: Seq<char>, n: nat) -> Seq<char> {
    "/org/freedesktop/portal/desktop/request/"@ + sender_part(unique) + "/"@ + token_text(n)
}

/// The token of the request with this number.
pub fn request_token(n: u32) -> (s: String)
    ensures
        s@ == token_text(n as nat),
{
    let mut s = String::new();
    push_str(&mut s, "bw");
    push_decimal(&mut s, n as u128);
    assert(s@ =~= token_text(n as nat));
    s
}

fn sender_path_part(unique: &str) -> (s: String)
    ensures
        s@ == sender_part(unique@),
{
    let v = chars_of(unique);
    let mut i: usize = 0;
    assert(v@.skip(0) =~= v@);
    while i < v.len() && v[i] == ':'
        invariant
            i <= v@.len(),
            without_colons(v@.skip(i as int)) == without_colons(v@),
        decreases v.len() - i,
    {
        assert(v@.skip(i as int).skip(1) =~= v@.skip(i + 1));
        i += 1;
    }
    let ghost rest = v@.skip(i as int);
    let ghost start = i as int;
    assert(without_colons(v@) == rest);
    let mut s = String::new();
    while i < v.len()
        invariant
            start <= i <= v@.len(),
            0 <= start,
            rest == v@.skip(start),
            s@.len() == i - start,
            forall|j: int|
                0 <= j < s@.len() ==> #[trigger] s@[j] == if rest[j] == '.' {
                    '_'
                } else {
                    rest[j]
                },
        decreases v.len() - i,
    {
        if v[i] == '.' {
            s.push('_');
        } else {
            s.push(v[i]);
        }
        i += 1;
    }
    assert(s@ =~= sender_part(unique@));
    s
}

/// The path on which to expect the answer to request number `n`.
pub fn request_path(unique: &str, n: u32) -> (s: String)
    ensures
        s@ == request_path_text(unique@, n as nat),
{
    let mut s = String::new();
    push_str(&mut s, "/org/freedesktop/portal/desktop/request/");
    push_str(&mut s, sender_path_part(unique).as_str());
    push_str(&mut s, "/");
    push_str(&mut s, request_token(n).as_str());
    assert(s@ =~= request_path_text(unique@, n as nat));
    s
}

/// Whether a portal that answered with this error lacks the newer session
/// call, so that the older flow is used: it may be advertised without being
/// there.
pub fn lacks_method(error_name: &str) -> (b: bool)
    ensures
        b == crate::text::ends(error_name@, "UnknownMethod"@),
{
    ends_with(error_name, "UnknownMethod")
}

/// What the newer session call came back with.
pub enum SessionReply {
    /// An answer, with a session handle or without.
    Answer(bool),
    /// The error of this name.
    MethodError(String),
    /// Any other failure.
    Failed,
}

/// How to go on after the newer session call.
#[derive(Debug, Clone, Copy, PartialEq, Eq, Structural)]
pub enum SessionStep {
    /// The session is there; consent is asked for on start, and can be
    /// remembered.
    Newer,
    /// Use the older call: consent is asked for right there, and cannot be
    /// remembered.
    Older,
    /// The answer has no session handle.
    NoHandle,
    /// Pass the error on.
    PassOn,
}

/// What follows the newer session call.
pub open spec fn session_step(reply: SessionReply) -> SessionStep {
    match reply {
        SessionReply::Answer(handle) => if handle {
            SessionStep::Newer
        } else {
            SessionStep::NoHandle
        },
        SessionReply::MethodError(name) => if crate::text::ends(name@, "UnknownMethod"@) {
            SessionStep::Older
        } else {
            SessionStep::PassOn
        },
        SessionReply::Failed => SessionStep::PassOn,
    }
}

/// Decide after the newer session call.
pub fn after_session_call(reply: &SessionReply) -> (s: SessionStep)
    ensures
        s == session_step(*reply),
{
    match reply {
        SessionReply::Answer(handle) => {
            if *handle {
                SessionStep::Newer
            } else {
                SessionStep::NoHandle
            }
        },
        SessionReply::MethodError(name) => {
            if lacks_method(name.as_str()) {
                SessionStep::Older
            } else {
                SessionStep::PassOn
            }
        },
        SessionReply::Failed => SessionStep::PassOn,
    }
}

/// What starting a session takes.
#[derive(Debug, Clone, Copy, PartialEq, Eq, Structural)]
pub enum StartStep {
    /// Nothing: consent was given already, for these capabilities, and there
    /// is no token to restore it from.
    Granted(u32),
    /// Ask the portal.
    Ask,
}

/// Decide how to start a session of the newer or the older kind.
pub fn start_step(newer: bool) -> (s: StartStep)
    ensures
        s == if newer {
            StartStep::Ask
        } else {
            StartStep::Granted(CAPABILITIES)
        },
{
    if newer {
        StartStep::Ask
    } else {
        StartStep::Granted(CAPABILITIES)
    }
}

/// Whether the portal put a request elsewhere than expected, so that its
/// answer is to be awaited there.
pub fn moved_request(actual: &str, expected: &str) -> (b: bool)
    ensures
        b == (actual@ != expected@),
{
    !same_text(actual, expected)
}

/// The zone to work with: the first one.
pub fn first_zone(zones: &[Zone]) -> (r: Result<Zone, &'static str>)
    ensures
        match r {
            Ok(z) => zones@.len() > 0 && z == zones@[0],
            Err(e) => zones@.len() == 0 && e@ == "no zones reported"@,
        },
{
    if zones.len() == 0 {
        return Err("no zones reported");
    }
    Ok(zones[0])
}

/// Portal calls whose answer carries a response code.
#[derive(Debug, Clone, Copy, PartialEq, Eq, Structural)]
pub enum PortalCall {
    CreateSession,
    Start,
    GetZones,
    SetPointerBarriers,
}

impl PortalCall {
    pub open spec fn spec_name(self) -> Seq<char> {
        match self {
            PortalCall::CreateSession => "CreateSession"@,
            PortalCall::Start => "Start"@,
            PortalCall::GetZones => "GetZones"@,
            PortalCall::SetPointerBarriers => "SetPointerBarriers"@,
        }
    }

    pub fn name(&self) -> (s: &'static str)
        ensures
            s@ == self.spec_name(),
    {
        match self {
            PortalCall::CreateSession => "CreateSession",
            PortalCall::Start => "Start",
            PortalCall::GetZones => "GetZones",
            PortalCall::SetPointerBarriers => "SetPointerBarriers",
        }
    }

    /// Whether the user is asked during the call.
    pub open spec fn asks_user(self) -> bool {
        self == PortalCall::CreateSession || self == PortalCall::Start
    }

    /// What a response code other than 0 is reported as.
    pub open spec fn failure_text(self, code: u32) -> Seq<char> {
        if self.asks_user() {
            self.spec_name() + " refused (response "@ + crate::decimal::decimal(code as nat)
                + "; 1 = user cancelled)"@
        } else {
            self.spec_name() + " failed ("@ + crate::decimal::decimal(code as nat) + ")"@
        }
    }

    /// What a response code means: 0 is success.
    pub fn check(&self, code: u32) -> (r: Result<(), String>)
        ensures
            match r {
                Ok(_) => code == 0,
                Err(e) => code != 0 && e@ == self.failure_text(code),
            },
    {
        if code == 0 {
            return Ok(());
        }
        let mut s = String::new();
        push_str(&mut s, self.name());
        match self {
            PortalCall::CreateSession | PortalCall::Start => {
                push_str(&mut s, " refused (response ");
                push_decimal(&mut s, code as u128);
                push_str(&mut s, "; 1 = user cancelled)");
            },
            _ => {
                push_str(&mut s, " failed (");
                push_decimal(&mut s, code as u128);
                push_str(&mut s, ")");
            },
        }
        assert(s@ =~= self.failure_text(code));
        Err(s)
    }
}

/// Signals of a capture session.
#[derive(Debug, Clone, Copy, PartialEq, Eq, Structural)]
pub enum PortalSignal {
    Activated,
    Deactivated,
    Disabled,
    ZonesChanged,
}

/// The signal of this name, if it is about our session.
pub fn our_signal(handle: &str, session: &str, name: &str) -> (r: Option<PortalSignal>)
    ensures
        r == if handle@ == session@ {
            Some(signal_named(name@))
        } else {
            None
        },
{
    if same_text(handle, session) {
        Some(signal_of(name))
    } else {
        None
    }
}

/// The signal of this name.
pub open spec fn signal_named(name: Seq<char>) -> PortalSignal {
    if name == "Activated"@ {
        PortalSignal::Activated
    } else if name == "Deactivated"@ {
        PortalSignal::Deactivated
    } else if name == "Disabled"@ {
        PortalSignal::Disabled
    } else {
        PortalSignal::ZonesChanged
    }
}

/// The signal of this name.
pub fn signal_of(name: &str) -> (s: PortalSignal)
    ensures
        s == signal_named(name@),
{
    if same_text(name, "Activated") {
        PortalSignal::Activated
    } else if same_text(name, "Deactivated") {
        PortalSignal::Deactivated
    } else if same_text(name, "Disabled") {
        PortalSignal::Disabled
    } else {
        PortalSignal::ZonesChanged
    }
}

/// The restore token that a file holds: its text without the white space
/// around it, unless that is empty.
pub fn stored_token(text: &str) -> (r: Option<String>)
    ensures
        match r {
            Some(t) => t@ == crate::text::trimmed(text@) && t@.len() > 0,
            None => crate::text::trimmed(text@).len() == 0,
        },
{
    let t = trim(chars_of(text).as_slice());
    if t.len() == 0 {
        return None;
    }
    Some(string_of(t.as_slice()))
}

// --- what the portal client guarantees ----------------------------------

/// Requests with different numbers have different tokens, and so, for one
/// connection, different paths: no request sees another's answer.
pub proof fn request_paths_are_distinct(unique: Seq<char>, a: nat, b: nat)
    requires
        a != b,
    ensures
        token_text(a) != token_text(b),
        request_path_text(unique, a) != request_path_text(unique, b),
{
    crate::decimal::decimal_round_trip(a);
    crate::decimal::decimal_round_trip(b);
    let head = "/org/freedesktop/portal/desktop/request/"@ + sender_part(unique) + "/"@;
    let h = head.len() as int;
    let w = "bw"@.len() as int;
    assert(token_text(a).skip(w) =~= crate::decimal::decimal(a));
    assert(token_text(b).skip(w) =~= crate::decimal::decimal(b));
    assert(request_path_text(unique, a) =~= head + token_text(a));
    assert(request_path_text(unique, b) =~= head + token_text(b));
    assert((head + token_text(a)).skip(h) =~= token_text(a));
    assert((head + token_text(b)).skip(h) =~= token_text(b));
}

/// Every candidate is a vertical line from the top row of the zone, at most
/// one column away from its last.
pub proof fn candidates_lie_on_the_right_edge(zone: Zone, i: int)
    requires
        zone.spec_fits(),
        0 <= i < 3,
    ensures
        ({
            let (x1, y1, x2, y2) = zone.right_edges()[i];
            let last = zone.x + zone.width - 1;
            &&& x1 == x2
            &&& y1 == zone.y
            &&& last <= x1 <= last + 1
            &&& zone.y + zone.height - 1 <= y2 <= zone.y + zone.height
        }),
{
}

} // verus!
