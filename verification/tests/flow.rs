use beaglewing::clipframe::{ACK_EVERY, ACK_WINDOW};
use beaglewing::flow::{
    ack_due, after_attempt, percent, progress_due, receive_log_due, AfterAttempt, AttemptEnd,
    SendStep, Sender, STALL_AFTER,
};
use beaglewing::relay::{leaves_slot_empty, Attempt, FrameWrite, Verdict, DROP_AFTER, WARN_AFTER};

#[test]
fn window_fills_waits_and_aborts() {
    let mut s = Sender::new(1000);
    assert_eq!(s.next(0, 0), SendStep::Write(0));
    for i in 1..=ACK_WINDOW as usize {
        assert_eq!(s.next(0, 0), SendStep::Write(i));
    }
    assert_eq!(s.next(0, 0), SendStep::Wait);
    assert_eq!(s.next(0, STALL_AFTER), SendStep::Wait);
    assert_eq!(s.next(0, STALL_AFTER + 1), SendStep::Abort);
    assert_eq!(s.next(1, 0), SendStep::Write(257));
    assert_eq!(s.next(1, 0), SendStep::Wait);
}

#[test]
fn frames_go_out_in_order_with_a_prompt_receiver() {
    let mut s = Sender::new(3000);
    let mut acked = 0;
    let mut data = 0u32;
    for i in 0..3000usize {
        assert_eq!(s.next(acked, 0), SendStep::Write(i));
        if i > 0 && i < 2999 {
            data += 1;
            if ack_due(data) {
                acked = data;
            }
        }
    }
    assert_eq!(s.next(acked, 0), SendStep::Done);
    assert_eq!(data, 2998);
}

#[test]
fn start_and_end_do_not_wait() {
    let mut s = Sender::new(2);
    assert_eq!(s.next(0, 0), SendStep::Write(0));
    assert_eq!(s.next(0, 0), SendStep::Write(1));
    assert_eq!(s.next(0, 0), SendStep::Done);
}

#[test]
fn acks_ahead_of_us_do_no_harm() {
    let mut s = Sender::new(10);
    s.next(0, 0);
    assert_eq!(s.next(500, 0), SendStep::Write(1));
}

#[test]
fn one_retry_after_a_stall() {
    assert_eq!(after_attempt(0, AttemptEnd::Stalled), AfterAttempt::Retry);
    assert_eq!(after_attempt(1, AttemptEnd::Stalled), AfterAttempt::Abandon);
    assert_eq!(after_attempt(0, AttemptEnd::Lost), AfterAttempt::Lost);
    assert_eq!(after_attempt(1, AttemptEnd::Sent), AfterAttempt::Sent);
}

#[test]
fn progress() {
    assert_eq!(percent(0, 10), 0);
    assert_eq!(percent(5, 10), 50);
    assert_eq!(percent(10, 10), 99);
    assert_eq!(percent(3, 0), 99);
    assert!(!progress_due(1_000_000, u64::MAX));
    assert!(!progress_due(1_000_001, 2_000_000_000));
    assert!(progress_due(1_000_001, 2_000_000_001));
    assert!(ack_due(ACK_EVERY) && !ack_due(ACK_EVERY + 1));
    assert!(receive_log_due(8192) && !receive_log_due(8191));
}

#[test]
fn relay_writes_are_bounded() {
    let mut w = FrameWrite::new();
    assert_eq!(w.after(Attempt::WouldBlock, WARN_AFTER), Verdict::Retry(false));
    assert_eq!(w.after(Attempt::WouldBlock, WARN_AFTER + 1), Verdict::Retry(true));
    assert_eq!(w.after(Attempt::WouldBlock, WARN_AFTER + 2), Verdict::Retry(false));
    assert_eq!(w.after(Attempt::WouldBlock, DROP_AFTER), Verdict::Retry(false));
    assert_eq!(w.after(Attempt::WouldBlock, DROP_AFTER + 1), Verdict::Drop);
    assert_eq!(w.after(Attempt::Written, DROP_AFTER + 1), Verdict::Done);
    assert_eq!(w.after(Attempt::Failed, 0), Verdict::GiveUp);
}

#[test]
fn a_newer_agent_keeps_its_place() {
    let a = "10.0.0.1:5".to_string();
    let b = "10.0.0.1:6".to_string();
    assert!(leaves_slot_empty(Some(&a), &a));
    assert!(!leaves_slot_empty(Some(&b), &a));
    assert!(!leaves_slot_empty(None, &a));
}
