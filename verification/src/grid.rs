//! Board coordinates: cells, steps between cells, and the board's bounds.

use vstd::prelude::*;

verus! {

/// Number of columns of the board.
pub const WIDTH: usize = 50;

/// Number of rows of the board.
pub const HEIGHT: usize = 40;

/// A cell, by column `x` and row `y`, both counted from zero.
///
/// Any pair of coordinates is a value of this type; the cells of the board are
/// those that [`out_of_bounds`] rejects.
#[derive(Default, Debug, Clone, Copy, PartialEq, Eq, Hash, Structural)]
pub struct Position {
    pub x: usize,
    pub y: usize,
}

/// A signed step between cells. The four directions are the steps of length one
/// along one axis.
#[derive(Default, Debug, Clone, Copy, PartialEq, Eq, Hash, Structural)]
pub struct Offset {
    pub x: isize,
    pub y: isize,
}

/// The coordinate reached from `v` by `d`: their sum, brought back into the
/// range of `usize` where it leaves it. A step below zero lands at the top of
/// the range.
pub open spec fn wrap_coordinate(v: usize, d: isize) -> usize {
    if v + d > usize::MAX {
        (v + d - (usize::MAX + 1)) as usize
    } else if v + d < 0 {
        (v + d + (usize::MAX + 1)) as usize
    } else {
        (v + d) as usize
    }
}

/// The negation of `v` in `isize`: the least value, which has no opposite, is
/// its own.
pub open spec fn wrap_negation(v: isize) -> isize {
    if v == isize::MIN {
        isize::MIN
    } else {
        (-v) as isize
    }
}

/// Whether `position` lies off the board.
pub open spec fn out_of_bounds(position: Position) -> bool {
    position.x >= WIDTH || position.y >= HEIGHT
}

impl Position {
    /// The cell in column `x` and row `y`.
    pub fn new(x: usize, y: usize) -> (position: Position)
        ensures
            position.x == x,
            position.y == y,
    {
        Position { x, y }
    }

    /// The cell reached from `self` by `step`, each coordinate wrapping round
    /// the range of `usize`.
    pub open spec fn stepped(self, step: Offset) -> Position {
        Position {
            x: wrap_coordinate(self.x, step.x),
            y: wrap_coordinate(self.y, step.y),
        }
    }
}

impl Offset {
    /// The step by `x` columns and `y` rows.
    pub fn new(x: isize, y: isize) -> (offset: Offset)
        ensures
            offset.x == x,
            offset.y == y,
    {
        Offset { x, y }
    }

    /// The step to the row above.
    pub open spec fn spec_up() -> Offset {
        Offset { x: 0, y: (-1) as isize }
    }

    /// The step to the row below.
    pub open spec fn spec_down() -> Offset {
        Offset { x: 0, y: 1 }
    }

    /// The step to the next column.
    pub open spec fn spec_right() -> Offset {
        Offset { x: 1, y: 0 }
    }

    /// The step to the column before.
    pub open spec fn spec_left() -> Offset {
        Offset { x: (-1) as isize, y: 0 }
    }

    /// The step to the row above.
    #[verifier::when_used_as_spec(spec_up)]
    pub fn up() -> (step: Offset)
        ensures
            step == Self::spec_up(),
    {
        Offset { x: 0, y: -1 }
    }

    /// The step to the row below.
    #[verifier::when_used_as_spec(spec_down)]
    pub fn down() -> (step: Offset)
        ensures
            step == Self::spec_down(),
    {
        Offset { x: 0, y: 1 }
    }

    /// The step to the next column.
    #[verifier::when_used_as_spec(spec_right)]
    pub fn right() -> (step: Offset)
        ensures
            step == Self::spec_right(),
    {
        Offset { x: 1, y: 0 }
    }

    /// The step to the column before.
    #[verifier::when_used_as_spec(spec_left)]
    pub fn left() -> (step: Offset)
        ensures
            step == Self::spec_left(),
    {
        Offset { x: -1, y: 0 }
    }

    /// The step that undoes `self`.
    pub open spec fn reversed(self) -> Offset {
        Offset { x: wrap_negation(self.x), y: wrap_negation(self.y) }
    }

    /// Whether `self` is one of the four directions.
    pub open spec fn is_direction(self) -> bool {
        self == Self::up() || self == Self::down() || self == Self::right() || self == Self::left()
    }
}

impl core::ops::Add<Offset> for Position {
    type Output = Position;

    /// The cell reached from `self` by `rhs`. A coordinate that leaves the range
    /// of `usize` wraps round, so a step below zero ends far off the board.
    fn add(self, rhs: Offset) -> (sum: Position)
        ensures
            sum == self.stepped(rhs),
    {
        Position { x: self.x.wrapping_add_signed(rhs.x), y: self.y.wrapping_add_signed(rhs.y) }
    }
}

impl vstd::std_specs::ops::AddSpecImpl<Offset> for Position {
    open spec fn obeys_add_spec() -> bool {
        true
    }

    open spec fn add_req(self, rhs: Offset) -> bool {
        true
    }

    open spec fn add_spec(self, rhs: Offset) -> Position {
        self.stepped(rhs)
    }
}

impl core::ops::Neg for Offset {
    type Output = Offset;

    /// The step that undoes `self`.
    fn neg(self) -> (opposite: Offset)
        ensures
            opposite == self.reversed(),
    {
        let zero: isize = 0;
        Offset { x: zero.wrapping_sub(self.x), y: zero.wrapping_sub(self.y) }
    }
}

impl vstd::std_specs::ops::NegSpecImpl for Offset {
    open spec fn obeys_neg_spec() -> bool {
        true
    }

    open spec fn neg_req(self) -> bool {
        true
    }

    open spec fn neg_spec(self) -> Offset {
        self.reversed()
    }
}

/// Whether `position` lies off the board: a coordinate at or past the board's
/// width or height, which is also where a step below zero lands.
pub fn is_out_of_bounds(position: Position) -> (off: bool)
    ensures
        off == out_of_bounds(position),
{
    position.x >= WIDTH || position.y >= HEIGHT
}

} // verus!
