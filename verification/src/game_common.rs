//! Types shared by the game and by what is drawn of it.

use vstd::prelude::*;
use crate::geom::Vector;

verus! {

/// One of the two players.
#[derive(Clone, Copy, Debug, PartialEq, Eq, Structural)]
pub enum Side {
    Left,
    Right,
}

/// An explosion in progress: the top-left corner of its sprite and the number
/// of ticks it has been shown.
#[derive(Clone, Copy, Debug, PartialEq, Eq, Structural)]
pub struct Explosion {
    pub pos: Vector,
    pub frame: u32,
}

} // verus!
