//! Captured input as the compositor streams it.

use vstd::prelude::*;

use crate::router::Captured;

verus! {

/// What the compositor's event stream brings. Motion and scroll distances
/// stay with the caller.
#[derive(Debug, Clone, Copy, PartialEq, Eq, Structural)]
pub enum EiInput {
    SeatAdded,
    /// Keycode, pressed.
    KeyboardKey(u32, bool),
    /// Button code, pressed.
    Button(u32, bool),
    PointerMotion,
    /// Horizontal and vertical wheel, in 120ths per detent.
    ScrollDiscrete(i32, i32),
    ScrollDelta,
    Frame,
    Disconnected,
    /// Anything else.
    Other,
}

/// What to do about an event of the stream.
#[derive(Debug, Clone, Copy, PartialEq, Eq, Structural)]
pub enum EiStep {
    /// Bind the seat's capabilities: the compositor streams nothing until
    /// then.
    BindSeat,
    /// Hand this to the router.
    Forward(Captured),
    /// Hand this to the router, and stop reading.
    ForwardLast(Captured),
    Skip,
}

/// What an event of the stream calls for.
pub open spec fn step_of(input: EiInput) -> EiStep {
    match input {
        EiInput::SeatAdded => EiStep::BindSeat,
        EiInput::KeyboardKey(code, pressed) => EiStep::Forward(Captured::Key(code, pressed)),
        EiInput::Button(code, pressed) => EiStep::Forward(Captured::Button(code, pressed)),
        EiInput::PointerMotion => EiStep::Forward(Captured::Motion),
        EiInput::ScrollDiscrete(_, y) => EiStep::Forward(Captured::ScrollDiscrete(y)),
        EiInput::ScrollDelta => EiStep::Forward(Captured::ScrollDelta),
        EiInput::Frame => EiStep::Forward(Captured::Frame),
        EiInput::Disconnected => EiStep::ForwardLast(Captured::Disconnected),
        EiInput::Other => EiStep::Skip,
    }
}

/// Decide about an event of the stream.
pub fn ei_step(input: EiInput) -> (s: EiStep)
    ensures
        s == step_of(input),
{
    match input {
        EiInput::SeatAdded => EiStep::BindSeat,
        EiInput::KeyboardKey(code, pressed) => EiStep::Forward(Captured::Key(code, pressed)),
        EiInput::Button(code, pressed) => EiStep::Forward(Captured::Button(code, pressed)),
        EiInput::PointerMotion => EiStep::Forward(Captured::Motion),
        EiInput::ScrollDiscrete(_, y) => EiStep::Forward(Captured::ScrollDiscrete(y)),
        EiInput::ScrollDelta => EiStep::Forward(Captured::ScrollDelta),
        EiInput::Frame => EiStep::Forward(Captured::Frame),
        EiInput::Disconnected => EiStep::ForwardLast(Captured::Disconnected),
        EiInput::Other => EiStep::Skip,
    }
}

} // verus!
