//! Droplets: the moving units of data of a running program.
use vstd::prelude::*;
use crate::types::bigint::TubularBigInt;
use crate::types::coordinate::{Coordinate, offset_fits};
use crate::types::direction::{Direction, spec_dx, spec_dy};

verus! {

pub type DropletId = u64;

/// A droplet: an integer value travelling through the grid.
#[derive(Debug)]
pub struct Droplet {
    /// Unique identifier for tracking.
    pub id: DropletId,
    /// Current value.
    pub value: TubularBigInt,
    /// Current position in the grid.
    pub position: Coordinate,
    /// Current direction of movement.
    pub direction: Direction,
    /// Whether this droplet is active (will move next tick).
    pub active: bool,
}

/// What a droplet is, with its value as an integer.
pub struct DropletModel {
    pub id: DropletId,
    pub value: int,
    pub position: Coordinate,
    pub direction: Direction,
    pub active: bool,
}

impl View for Droplet {
    type V = DropletModel;

    open spec fn view(&self) -> DropletModel {
        DropletModel {
            id: self.id,
            value: self.value@,
            position: self.position,
            direction: self.direction,
            active: self.active,
        }
    }
}

/// The models of a sequence of droplets.
pub open spec fn droplet_models(s: Seq<Droplet>) -> Seq<DropletModel> {
    s.map_values(|d: Droplet| d@)
}

/// Whether one step from `c` in direction `d` stays inside the range of `isize`.
pub open spec fn can_step(c: Coordinate, d: Direction) -> bool {
    offset_fits(c, spec_dx(d), spec_dy(d))
}

/// The coordinate one step from `c` in direction `d`.
pub open spec fn step_from(c: Coordinate, d: Direction) -> Coordinate {
    Coordinate { x: (c.x + spec_dx(d)) as isize, y: (c.y + spec_dy(d)) as isize }
}

/// Where a droplet will be after its next move.
pub open spec fn next_position_of(d: Droplet) -> Coordinate {
    step_from(d.position, d.direction)
}

impl Clone for Droplet {
    fn clone(&self) -> (r: Self)
        ensures
            r@ == self@,
            r.id == self.id,
            r.value@ == self.value@,
            r.position == self.position,
            r.direction == self.direction,
            r.active == self.active,
    {
        Droplet {
            id: self.id,
            value: self.value.clone(),
            position: self.position,
            direction: self.direction,
            active: self.active,
        }
    }
}

impl Droplet {
    /// An active droplet of value zero.
    pub fn new(id: DropletId, position: Coordinate, direction: Direction) -> (r: Self)
        ensures
            r.id == id,
            r.value@ == 0,
            r.position == position,
            r.direction == direction,
            r.active,
    {
        Droplet { id, value: TubularBigInt::zero(), position, direction, active: true }
    }

    /// An active droplet with the given value.
    pub fn with_value(id: DropletId, value: TubularBigInt, position: Coordinate, direction: Direction) -> (r: Self)
        ensures
            r.id == id,
            r.value == value,
            r.position == position,
            r.direction == direction,
            r.active,
    {
        Droplet { id, value, position, direction, active: true }
    }

    pub fn is_active(&self) -> (r: bool)
        ensures
            r == self.active,
    {
        self.active
    }

    pub fn deactivate(&mut self)
        ensures
            *final(self) == (Droplet { active: false, ..*old(self) }),
    {
        self.active = false;
    }

    pub fn move_to(&mut self, new_position: Coordinate)
        ensures
            *final(self) == (Droplet { position: new_position, ..*old(self) }),
    {
        self.position = new_position;
    }

    pub fn set_direction(&mut self, direction: Direction)
        ensures
            *final(self) == (Droplet { direction, ..*old(self) }),
    {
        self.direction = direction;
    }

    pub fn set_value(&mut self, value: TubularBigInt)
        ensures
            *final(self) == (Droplet { value, ..*old(self) }),
    {
        self.value = value;
    }

    /// The position one step ahead in the current direction.
    pub fn next_position(&self) -> (r: Coordinate)
        requires
            can_step(self.position, self.direction),
        ensures
            r == next_position_of(*self),
    {
        self.position.step(self.direction)
    }

    /// Whether both droplets are active and will move to the same position.
    pub fn will_collide_with(&self, other: &Droplet) -> (r: bool)
        requires
            can_step(self.position, self.direction),
            can_step(other.position, other.direction),
        ensures
            r == (self.active && other.active && next_position_of(*self) == next_position_of(*other)),
    {
        if !self.active || !other.active {
            return false;
        }
        self.next_position() == other.next_position()
    }

    pub fn is_at_same_position(&self, other: &Droplet) -> (r: bool)
        ensures
            r == (self.position == other.position),
    {
        self.position == other.position
    }
}

} // verus!
