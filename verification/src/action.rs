//! What an agent intends to do in one tick.

use crate::geometry::Point;
use vstd::prelude::*;

verus! {

/// One agent's intended effect for the tick.
#[derive(Debug, Clone, Copy, PartialEq, Eq, Structural)]
pub enum Action {
    /// Tag the agent with this id.
    Tag(usize),
    /// Go to this place.
    Move(Point),
}

} // verus!
