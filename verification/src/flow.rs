//! Flow control of the clipboard channel: never more than `ACK_WINDOW`
//! unacked DATA frames in flight, so that a bursty transfer cannot overflow
//! the host's HID input queue (which drops oldest, killing the whole
//! transfer).

use vstd::prelude::*;

use crate::clipframe::{ACK_EVERY, ACK_WINDOW};

verus! {

/// Abort when a frame has waited for an ACK for longer than this (ns).
pub const STALL_AFTER: u64 = 5_000_000_000;

/// Pause before the one retry (ns).
pub const RETRY_PAUSE: u64 = 2_000_000_000;

/// Progress is worth logging for transfers of more bytes than this.
pub const LOG_BYTES: usize = 1_000_000;

/// Progress is not logged more often than this (ns).
pub const LOG_EVERY: u64 = 2_000_000_000;

/// What a sender does next.
#[derive(Debug, Clone, Copy, PartialEq, Eq, Structural)]
pub enum SendStep {
    /// Write the frame with this index.
    Write(usize),
    /// The window is full: look again shortly.
    Wait,
    /// The receiver stopped acking: send ABORT and give up.
    Abort,
    /// All frames are written.
    Done,
}

/// One attempt at sending the frames of a transfer.
pub struct Sender {
    frames: usize,
    index: usize,
    sent_data: u32,
}

/// How many frames there are, how many have been written, and how many of
/// those were DATA frames.
#[verifier::ext_equal]
pub struct SenderView {
    pub frames: nat,
    pub index: nat,
    pub sent_data: nat,
}

impl View for Sender {
    type V = SenderView;

    closed spec fn view(&self) -> SenderView {
        SenderView {
            frames: self.frames as nat,
            index: self.index as nat,
            sent_data: self.sent_data as nat,
        }
    }
}

impl SenderView {
    /// All but the first and the last frame are DATA frames.
    pub open spec fn is_data(self, i: nat) -> bool {
        0 < i < self.frames - 1
    }

    pub open spec fn wf(self) -> bool {
        &&& 1 <= self.frames <= 0x1_0000_0000
        &&& self.index <= self.frames
        &&& self.sent_data == if self.index == 0 {
            0
        } else if self.index < self.frames {
            self.index - 1
        } else if self.frames == 1 {
            0
        } else {
            self.frames - 2
        }
    }

    /// DATA frames that have been written and not acked.
    pub open spec fn in_flight(self, acked: u32) -> int {
        if self.sent_data >= acked {
            self.sent_data - acked
        } else {
            0
        }
    }

    /// What to do, given the last ACK and how long this frame has waited.
    pub open spec fn step(self, acked: u32, waited: u64) -> SendStep {
        if self.index == self.frames {
            SendStep::Done
        } else if self.is_data(self.index) && self.in_flight(acked) >= ACK_WINDOW {
            if waited > STALL_AFTER {
                SendStep::Abort
            } else {
                SendStep::Wait
            }
        } else {
            SendStep::Write(self.index as usize)
        }
    }

    /// The state after writing a frame.
    pub open spec fn advanced(self) -> SenderView {
        SenderView {
            index: self.index + 1,
            sent_data: if self.is_data(self.index) {
                self.sent_data + 1
            } else {
                self.sent_data
            },
            ..self
        }
    }
}

impl Sender {
    /// Start over with nothing acked.
    pub fn new(frames: usize) -> (s: Sender)
        requires
            1 <= frames <= 0x1_0000_0000,
        ensures
            s@ == (SenderView { frames: frames as nat, index: 0, sent_data: 0 }),
            s@.wf(),
    {
        Sender { frames, index: 0, sent_data: 0 }
    }

    /// Decide what to do next. Frames go out in order, each once.
    pub fn next(&mut self, acked: u32, waited: u64) -> (step: SendStep)
        requires
            old(self)@.wf(),
        ensures
            step == old(self)@.step(acked, waited),
            final(self)@ == if step is Write {
                old(self)@.advanced()
            } else {
                old(self)@
            },
            final(self)@.wf(),
    {
        let i: usize = self.index;
        if i == self.frames {
            return SendStep::Done;
        }
        if i > 0 && i < self.frames - 1 {
            if self.sent_data.saturating_sub(acked) >= ACK_WINDOW {
                if waited > STALL_AFTER {
                    return SendStep::Abort;
                }
                return SendStep::Wait;
            }
            self.sent_data += 1;
        }
        self.index += 1;
        SendStep::Write(i)
    }
}

/// How one attempt at a transfer ended.
#[derive(Debug, Clone, Copy, PartialEq, Eq, Structural)]
pub enum AttemptEnd {
    Sent,
    /// The connection is gone.
    Lost,
    /// The receiver stopped acking.
    Stalled,
}

/// What to do after an attempt.
#[derive(Debug, Clone, Copy, PartialEq, Eq, Structural)]
pub enum AfterAttempt {
    Sent,
    Lost,
    /// Pause, then try once more: a receiver busy applying the previous
    /// transfer can miss a START frame.
    Retry,
    Abandon,
}

/// What follows an attempt: a stall is tried again once.
pub open spec fn what_follows(attempt: u32, end: AttemptEnd) -> AfterAttempt {
    match end {
        AttemptEnd::Sent => AfterAttempt::Sent,
        AttemptEnd::Lost => AfterAttempt::Lost,
        AttemptEnd::Stalled => if attempt == 0 {
            AfterAttempt::Retry
        } else {
            AfterAttempt::Abandon
        },
    }
}

/// Decide after an attempt; attempts count from 0.
pub fn after_attempt(attempt: u32, end: AttemptEnd) -> (r: AfterAttempt)
    ensures
        r == what_follows(attempt, end),
{
    match end {
        AttemptEnd::Sent => AfterAttempt::Sent,
        AttemptEnd::Lost => AfterAttempt::Lost,
        AttemptEnd::Stalled => {
            if attempt == 0 {
                AfterAttempt::Retry
            } else {
                AfterAttempt::Abandon
            }
        },
    }
}

/// Whether progress is worth logging now.
pub fn progress_due(total_bytes: usize, since_last: u64) -> (b: bool)
    ensures
        b == (total_bytes > LOG_BYTES && since_last > LOG_EVERY),
{
    total_bytes > LOG_BYTES && since_last > LOG_EVERY
}

/// How far frame `i` of `n` is, in percent; 100 is for a transfer that is
/// over.
pub open spec fn percent_of(i: int, n: int) -> int {
    let whole = (i * 100) / if n == 0 {
        1
    } else {
        n
    };
    if whole > 99 {
        99
    } else {
        whole
    }
}

pub fn percent(i: usize, n: usize) -> (p: usize)
    requires
        i * 100 <= usize::MAX,
    ensures
        p == percent_of(i as int, n as int),
{
    let d: usize = if n == 0 {
        1
    } else {
        n
    };
    let whole: usize = i * 100 / d;
    if whole > 99 {
        99
    } else {
        whole
    }
}

/// Whether a receiver acks after its DATA frame number `count`.
pub fn ack_due(count: u32) -> (b: bool)
    ensures
        b == (count % ACK_EVERY == 0),
{
    count % ACK_EVERY == 0
}

/// Whether a receiver logs progress after its DATA frame number `count`.
pub fn receive_log_due(count: u32) -> (b: bool)
    ensures
        b == (count % 8192 == 0),
{
    count % 8192 == 0
}

/// The last count that a receiver has acked after `count` DATA frames.
pub open spec fn last_ack(count: nat) -> nat {
    count / (ACK_EVERY as nat) * (ACK_EVERY as nat)
}

/// At no time are more than `ACK_WINDOW` DATA frames in flight.
pub proof fn window_is_kept(s: SenderView, acked: u32, waited: u64)
    requires
        s.wf(),
        s.in_flight(acked) <= ACK_WINDOW,
    ensures
        s.step(acked, waited) is Write ==> s.advanced().in_flight(acked) <= ACK_WINDOW,
{
}

/// A receiver that has taken in everything sent so far has acked enough for
/// the sender to go on: the two never wait for each other.
pub proof fn window_never_deadlocks(s: SenderView, waited: u64)
    requires
        s.wf(),
        s.index < s.frames,
    ensures
        s.step(last_ack(s.sent_data) as u32, waited) == SendStep::Write(s.index as usize),
{
    let n = s.sent_data as int;
    assert(n - (n / 128) * 128 == n % 128);
}

/// The state after `n` more writes.
pub open spec fn advanced_all(s: SenderView, n: nat) -> SenderView
    decreases n,
{
    if n == 0 {
        s
    } else {
        advanced_all(s, (n - 1) as nat).advanced()
    }
}

/// After as many writes as there are frames the sender is done, and has
/// counted every frame between START and END.
pub proof fn all_frames_are_written(s: SenderView, acked: u32, waited: u64)
    requires
        s.wf(),
        s.index == 0,
    ensures
        advanced_all(s, s.frames).step(acked, waited) == SendStep::Done,
        s.frames >= 2 ==> advanced_all(s, s.frames).sent_data == s.frames - 2,
{
    lemma_advanced(s, s.frames);
}

proof fn lemma_advanced(s: SenderView, n: nat)
    requires
        s.wf(),
        s.index == 0,
        n <= s.frames,
    ensures
        advanced_all(s, n).index == n,
        advanced_all(s, n).frames == s.frames,
        advanced_all(s, n).wf(),
    decreases n,
{
    if n > 0 {
        lemma_advanced(s, (n - 1) as nat);
    }
}

} // verus!
