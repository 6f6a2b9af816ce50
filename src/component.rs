//! Per-body state. Lengths are integer length units (the default values
//! assume micrometres), time is counted in fixed ticks, and velocities are
//! length units per tick.
use vstd::prelude::*;
use crate::fixed::{in_limit, COORD_LIMIT};

verus! {

/// Restitution values are thousandths: `1000` is a perfectly elastic body.
pub const RESTITUTION_SCALE: u16 = 1000;

/// A two-dimensional integer vector.
#[derive(Clone, Copy, Debug, PartialEq, Eq, Structural)]
pub struct Vec2 {
    pub x: i64,
    pub y: i64,
}

impl Vec2 {
    pub fn new(x: i64, y: i64) -> (r: Vec2)
        ensures
            r.x == x,
            r.y == y,
    {
        Vec2 { x, y }
    }

    pub fn zero() -> (r: Vec2)
        ensures
            r.x == 0,
            r.y == 0,
    {
        Vec2 { x: 0, y: 0 }
    }

    /// Both components lie in the representable world range.
    pub open spec fn in_range(self) -> bool {
        in_limit(self.x as int) && in_limit(self.y as int)
    }

    pub fn is_in_range(&self) -> (r: bool)
        ensures
            r == self.in_range(),
    {
        -COORD_LIMIT <= self.x && self.x <= COORD_LIMIT && -COORD_LIMIT <= self.y && self.y
            <= COORD_LIMIT
    }
}

#[derive(Clone, Copy, Debug)]
pub struct Pos(pub Vec2);

#[derive(Clone, Copy, Debug)]
pub struct PrevPos(pub Vec2);

/// Mass of a dynamic body; must be positive.
#[derive(Clone, Copy, Debug)]
pub struct Mass(pub u16);

impl Default for Mass {
    fn default() -> (r: Mass)
        ensures
            r.0 == 1,
    {
        Mass(1)
    }
}

#[derive(Clone, Copy, Debug)]
pub struct PreSolveVel(pub Vec2);

/// Dynamic-dynamic contacts of the current step, as index pairs `(a, b)`, `a < b`.
#[derive(Debug)]
pub struct Contacts(pub Vec<(usize, usize)>);

#[derive(Clone, Copy, Debug)]
pub struct Vel(pub Vec2);

#[derive(Clone, Copy, Debug)]
pub struct CircleCollider {
    pub radius: u32,
}

impl Default for CircleCollider {
    /// Half a metre, in micrometres.
    fn default() -> (r: CircleCollider)
        ensures
            r.radius == 500000,
    {
        CircleCollider { radius: 500000 }
    }
}

/// An immovable circular obstacle.
#[derive(Clone, Copy, Debug)]
pub struct StaticColliderBundle {
    pub pos: Pos,
    pub collider: CircleCollider,
    pub restitution: Restitution,
}

impl StaticColliderBundle {
    pub open spec fn well_formed(self) -> bool {
        self.pos.0.in_range() && self.collider.radius <= COORD_LIMIT
    }
}

/// Dynamic-static contacts of the current step, as pairs
/// `(dynamic index, static index)`.
#[derive(Debug)]
pub struct StaticContacts(pub Vec<(usize, usize)>);

/// Bounciness, in thousandths (see `RESTITUTION_SCALE`).
#[derive(Clone, Copy, Debug)]
pub struct Restitution(pub u16);

impl Default for Restitution {
    fn default() -> (r: Restitution)
        ensures
            r.0 == 300,
    {
        Restitution(300)
    }
}

/// Constant acceleration, in length units per tick per tick.
#[derive(Clone, Copy, Debug)]
pub struct Gravity(pub Vec2);

impl Default for Gravity {
    /// 9.81 m/s^2 downward, in micrometres per (1/60 s)^2.
    fn default() -> (r: Gravity)
        ensures
            r.0.x == 0,
            r.0.y == -2725,
    {
        Gravity(Vec2 { x: 0, y: -2725 })
    }
}

} // verus!
