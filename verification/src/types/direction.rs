use vstd::prelude::*;

verus! {

/// One of the four directions a droplet can travel in.
#[derive(Debug, Clone, Copy, PartialEq, Eq, Hash, Structural)]
pub enum Direction {
    Up,
    Down,
    Left,
    Right,
}

/// Horizontal step of a direction (x grows to the right).
pub open spec fn spec_dx(d: Direction) -> int {
    match d {
        Direction::Left => -1,
        Direction::Right => 1,
        _ => 0,
    }
}

/// Vertical step of a direction (y grows downwards).
pub open spec fn spec_dy(d: Direction) -> int {
    match d {
        Direction::Up => -1,
        Direction::Down => 1,
        _ => 0,
    }
}

impl Direction {
    /// Horizontal component of one step in this direction.
    pub fn dx(&self) -> (r: isize)
        ensures
            r == spec_dx(*self),
    {
        match self {
            Direction::Left => -1,
            Direction::Right => 1,
            _ => 0,
        }
    }

    /// Vertical component of one step in this direction.
    pub fn dy(&self) -> (r: isize)
        ensures
            r == spec_dy(*self),
    {
        match self {
            Direction::Up => -1,
            Direction::Down => 1,
            _ => 0,
        }
    }
}

} // verus!
