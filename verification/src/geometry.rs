//! Adjacent screens and the edge they share: when motion crosses it, and
//! on which side of the other screen the cursor comes out.

use vstd::prelude::*;

verus! {

/// Which machine the cursor is on.
#[derive(Debug, Clone, Copy, PartialEq, Eq, Structural)]
pub enum Target {
    Local,
    Remote,
}

/// Which local edge borders the remote screen. Only Right/Left for now;
/// the model generalizes later if needed.
#[derive(Debug, Clone, Copy, PartialEq, Eq, Structural)]
pub enum Edge {
    Right,
    Left,
}

/// What a motion did.
#[derive(Debug, Clone, Copy, PartialEq, Eq, Structural)]
pub enum Crossing {
    /// The cursor stayed on its screen.
    Stay,
    ToRemote,
    ToLocal,
}

/// Where a motion would take the cursor, against the screen that it is on.
#[derive(Debug, Clone, Copy, PartialEq, Eq, Structural)]
pub enum Reach {
    /// Left of the first column.
    BeyondLeft,
    Within,
    /// Right of the last column.
    BeyondRight,
}

/// A side of a screen.
#[derive(Debug, Clone, Copy, PartialEq, Eq, Structural)]
pub enum Side {
    /// The first column.
    Left,
    /// The last column.
    Right,
}

/// The side of a screen that borders the other screen.
pub open spec fn shared_side(on: Target, edge: Edge) -> Side {
    match (on, edge) {
        (Target::Local, Edge::Right) | (Target::Remote, Edge::Left) => Side::Right,
        (Target::Local, Edge::Left) | (Target::Remote, Edge::Right) => Side::Left,
    }
}

/// Whether a motion goes out over a side.
pub open spec fn leaves_over(reach: Reach, side: Side) -> bool {
    match side {
        Side::Left => reach == Reach::BeyondLeft,
        Side::Right => reach == Reach::BeyondRight,
    }
}

/// Motion crosses exactly when it leaves the screen over the side that the
/// two screens share.
pub open spec fn crossing_of(on: Target, edge: Edge, reach: Reach) -> Crossing {
    if !leaves_over(reach, shared_side(on, edge)) {
        Crossing::Stay
    } else if on == Target::Local {
        Crossing::ToRemote
    } else {
        Crossing::ToLocal
    }
}

/// The screen that the cursor is on after a motion.
pub open spec fn target_after(on: Target, crossing: Crossing) -> Target {
    match crossing {
        Crossing::Stay => on,
        Crossing::ToRemote => Target::Remote,
        Crossing::ToLocal => Target::Local,
    }
}

/// Decide whether a motion crosses the shared edge.
pub fn crossing(on: Target, edge: Edge, reach: Reach) -> (c: Crossing)
    ensures
        c == crossing_of(on, edge, reach),
{
    match (on, edge, reach) {
        // Local -> remote across the shared edge
        (Target::Local, Edge::Right, Reach::BeyondRight) => Crossing::ToRemote,
        (Target::Local, Edge::Left, Reach::BeyondLeft) => Crossing::ToRemote,
        // Remote -> local across the same shared edge (opposite side)
        (Target::Remote, Edge::Right, Reach::BeyondLeft) => Crossing::ToLocal,
        (Target::Remote, Edge::Left, Reach::BeyondRight) => Crossing::ToLocal,
        _ => Crossing::Stay,
    }
}

/// The screen that the cursor is on after a motion.
pub fn target_of(on: Target, crossing: Crossing) -> (t: Target)
    ensures
        t == target_after(on, crossing),
{
    match crossing {
        Crossing::Stay => on,
        Crossing::ToRemote => Target::Remote,
        Crossing::ToLocal => Target::Local,
    }
}

/// The side of a screen on which the cursor comes in: the one that borders
/// the other screen.
pub fn entry_side(to: Target, edge: Edge) -> (s: Side)
    ensures
        s == shared_side(to, edge),
{
    match (to, edge) {
        (Target::Remote, Edge::Right) => Side::Left,
        (Target::Remote, Edge::Left) => Side::Right,
        (Target::Local, Edge::Right) => Side::Right,
        (Target::Local, Edge::Left) => Side::Left,
    }
}

/// Push through the edge and you are on the other screen; push back over
/// the side on which you came in and you are home. Nothing else crosses.
pub proof fn push_through_and_back(on: Target, edge: Edge, reach: Reach)
    ensures
        ({
            let there = target_after(on, crossing_of(on, edge, reach));
            let came_in = shared_side(there, edge);
            &&& there != on <==> leaves_over(reach, shared_side(on, edge))
            &&& there != on ==> came_in != shared_side(on, edge)
            &&& there != on ==> forall|back: Reach| #[trigger]
                leaves_over(back, came_in) ==> target_after(there, crossing_of(there, edge, back))
                    == on
        }),
{
}

} // verus!
