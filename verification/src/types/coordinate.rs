use vstd::prelude::*;
use crate::types::direction::{Direction, spec_dx, spec_dy};

verus! {

/// A cell position on the program grid: x grows to the right, y downwards.
#[derive(Debug, Clone, Copy, Hash, PartialEq, Eq, Structural)]
pub struct Coordinate {
    pub x: isize,
    pub y: isize,
}

/// Absolute value of a mathematical integer.
pub open spec fn abs_int(v: int) -> int {
    if v < 0 { -v } else { v }
}

/// Whether moving from `c` by `(dx, dy)` stays inside the range of `isize`.
pub open spec fn offset_fits(c: Coordinate, dx: int, dy: int) -> bool {
    &&& isize::MIN <= c.x + dx <= isize::MAX
    &&& isize::MIN <= c.y + dy <= isize::MAX
}

impl Coordinate {
    pub fn new(x: isize, y: isize) -> (r: Self)
        ensures
            r.x == x,
            r.y == y,
    {
        Coordinate { x, y }
    }

    pub fn origin() -> (r: Self)
        ensures
            r.x == 0,
            r.y == 0,
    {
        Coordinate::new(0, 0)
    }

    pub fn offset(&self, dx: isize, dy: isize) -> (r: Coordinate)
        requires
            offset_fits(*self, dx as int, dy as int),
        ensures
            r.x == self.x + dx,
            r.y == self.y + dy,
    {
        Coordinate::new(self.x + dx, self.y + dy)
    }

    /// Manhattan distance `|dx| + |dy|` between two coordinates.
    pub fn manhattan_distance(&self, other: &Coordinate) -> (r: usize)
        requires
            abs_int(self.x - other.x) + abs_int(self.y - other.y) <= isize::MAX,
        ensures
            r == abs_int(self.x - other.x) + abs_int(self.y - other.y),
    {
        let dx: isize = if self.x >= other.x { self.x - other.x } else { other.x - self.x };
        let dy: isize = if self.y >= other.y { self.y - other.y } else { other.y - self.y };
        (dx + dy) as usize
    }

    /// The neighbouring coordinate one step in `direction` (`self + direction`).
    pub fn step(&self, direction: Direction) -> (r: Coordinate)
        requires
            offset_fits(*self, spec_dx(direction), spec_dy(direction)),
        ensures
            r.x == self.x + spec_dx(direction),
            r.y == self.y + spec_dy(direction),
    {
        self.offset(direction.dx(), direction.dy())
    }

    /// The neighbouring coordinate one step against `direction` (`self - direction`).
    pub fn step_back(&self, direction: Direction) -> (r: Coordinate)
        requires
            offset_fits(*self, -spec_dx(direction), -spec_dy(direction)),
        ensures
            r.x == self.x - spec_dx(direction),
            r.y == self.y - spec_dy(direction),
    {
        self.offset(-direction.dx(), -direction.dy())
    }
}

} // verus!

verus! {

/// `(x, y)`: how a coordinate is written in messages.
pub open spec fn coordinate_text(c: Coordinate) -> Seq<char> {
    "("@ + crate::text::dec_int(c.x as int) + ", "@ + crate::text::dec_int(c.y as int) + ")"@
}

impl Coordinate {
    /// Appends `(x, y)` to `s`.
    pub fn write_to(&self, s: &mut String)
        ensures
            final(s)@ == old(s)@ + coordinate_text(*self),
    {
        crate::text::push_str(s, "(");
        crate::text::push_int(s, self.x as i128);
        crate::text::push_str(s, ", ");
        crate::text::push_int(s, self.y as i128);
        crate::text::push_str(s, ")");
        assert(final(s)@ =~= old(s)@ + coordinate_text(*self));
    }

    /// `(x, y)` as a new string.
    pub fn to_text(&self) -> (r: String)
        ensures
            r@ == coordinate_text(*self),
    {
        let mut s = String::new();
        self.write_to(&mut s);
        assert(s@ =~= coordinate_text(*self));
        s
    }
}

} // verus!

verus! {

/// Largest distance from the origin, along either axis, of a program cell.
///
/// Grids are built from text, so their coordinates are line and column
/// numbers; this bound keeps widths, heights and single steps from any cell
/// inside the range of `isize` on every platform.
pub const COORD_LIMIT: isize = 0x3fff_ffff;

/// Whether both components of `c` lie within `COORD_LIMIT` of zero.
pub open spec fn in_grid_range(c: Coordinate) -> bool {
    &&& -COORD_LIMIT <= c.x <= COORD_LIMIT
    &&& -COORD_LIMIT <= c.y <= COORD_LIMIT
}

} // verus!
