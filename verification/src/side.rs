//! The two sides of a market.

use vstd::prelude::*;

verus! {

/// A side of a market that goes up or down.
#[derive(Clone, Copy, Debug, PartialEq, Eq, Structural)]
pub enum Side {
    Up,
    Down,
}

impl Side {
    /// The other side.
    pub open spec fn spec_opposite(self) -> Side {
        match self {
            Side::Up => Side::Down,
            Side::Down => Side::Up,
        }
    }

    /// The other side.
    pub fn opposite(self) -> (r: Side)
        ensures
            r == self.spec_opposite(),
    {
        match self {
            Side::Up => Side::Down,
            Side::Down => Side::Up,
        }
    }
}

/// The two sides are each other's opposites.
pub proof fn law_sides_are_opposite(side: Side)
    ensures
        side.spec_opposite() != side,
        side.spec_opposite().spec_opposite() == side,
{
}

} // verus!
