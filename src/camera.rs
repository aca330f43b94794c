use vstd::prelude::*;

verus! {

/// A direction in which the camera can be moved, relative to its view.
#[derive(Clone, Copy, Debug, PartialEq, Eq, Structural)]
pub enum MoveDirection {
    Forward,
    Backward,
    Left,
    Right,
    Up,
    Down,
}

} // verus!
