//! The data relay between TCP and the vendor HID channel. Every TCP message
//! is exactly one HID report in either direction; all protocol intelligence
//! lives at the endpoints.

use vstd::prelude::*;

verus! {

/// A frame that the host has not taken for longer than this is dropped
/// (ns): a blocking write would wedge the pump forever and take the whole
/// toward-host direction down with it.
pub const DROP_AFTER: u64 = 10_000_000_000;

/// Say once that the host is not draining after this long (ns).
pub const WARN_AFTER: u64 = 1_000_000_000;

/// How a write attempt went.
#[derive(Debug, Clone, Copy, PartialEq, Eq, Structural)]
pub enum Attempt {
    Written,
    /// The host has not made room.
    WouldBlock,
    Failed,
}

/// What to do after a write attempt.
#[derive(Debug, Clone, Copy, PartialEq, Eq, Structural)]
pub enum Verdict {
    /// The frame is out.
    Done,
    /// Give the frame up: the host stopped draining.
    Drop,
    /// Give the frame up: the device failed.
    GiveUp,
    /// Wait for room and try again, and first say so if the flag is set.
    Retry(bool),
}

/// Writing one frame toward the host.
pub struct FrameWrite {
    pub warned: bool,
}

impl FrameWrite {
    /// What to do after an attempt, `waited` after the first one.
    pub open spec fn verdict(self, attempt: Attempt, waited: u64) -> Verdict {
        match attempt {
            Attempt::Written => Verdict::Done,
            Attempt::Failed => Verdict::GiveUp,
            Attempt::WouldBlock => if waited > DROP_AFTER {
                Verdict::Drop
            } else {
                Verdict::Retry(!self.warned && waited > WARN_AFTER)
            },
        }
    }

    pub fn new() -> (w: FrameWrite)
        ensures
            !w.warned,
    {
        FrameWrite { warned: false }
    }

    /// Decide after an attempt, `waited` after the first one. A frame never
    /// holds the pump for longer than the drop limit.
    pub fn after(&mut self, attempt: Attempt, waited: u64) -> (v: Verdict)
        ensures
            v == old(self).verdict(attempt, waited),
            final(self).warned == (old(self).warned || v == Verdict::Retry(true)),
            waited > DROP_AFTER ==> v !is Retry,
    {
        match attempt {
            Attempt::Written => Verdict::Done,
            Attempt::Failed => Verdict::GiveUp,
            Attempt::WouldBlock => {
                if waited > DROP_AFTER {
                    return Verdict::Drop;
                }
                if !self.warned && waited > WARN_AFTER {
                    self.warned = true;
                    return Verdict::Retry(true);
                }
                Verdict::Retry(false)
            },
        }
    }
}

/// Whether an agent that left is the one that receives host frames: a newer
/// one that has taken its place stays.
pub fn leaves_slot_empty(current: Option<&String>, left: &String) -> (b: bool)
    ensures
        b == match current {
            Some(c) => c@ == left@,
            None => false,
        },
{
    match current {
        Some(c) => c.eq(left),
        None => false,
    }
}

} // verus!
