//! Camera movement directions.
use vstd::prelude::*;

verus! {

/// A direction the free camera moves in.
#[derive(Debug, Copy, Clone, PartialEq, Eq, Structural)]
pub enum Directions {
    Left,
    Right,
    Up,
    Down,
    Forward,
    Backward,
}

} // verus!
