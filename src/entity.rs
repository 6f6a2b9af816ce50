//! The dynamic body.
use vstd::prelude::*;
use crate::component::{
    CircleCollider, Mass, Pos, PreSolveVel, PrevPos, Restitution, Vec2, Vel,
};
use crate::fixed::{clamp, fit, COORD_LIMIT};

verus! {

/// A dynamic body: moves under gravity and contacts.
#[derive(Clone, Copy, Debug)]
pub struct ParticleBundle {
    pub pos: Pos,
    pub prev_pos: PrevPos,
    pub mass: Mass,
    pub collider: CircleCollider,
    pub vel: Vel,
    pub pre_solve_vel: PreSolveVel,
    pub restitution: Restitution,
}

impl ParticleBundle {
    /// Positive mass, radius and every vector within the world range.
    pub open spec fn well_formed(self) -> bool {
        &&& self.pos.0.in_range()
        &&& self.prev_pos.0.in_range()
        &&& self.vel.0.in_range()
        &&& self.pre_solve_vel.0.in_range()
        &&& self.mass.0 >= 1
        &&& self.collider.radius <= COORD_LIMIT
    }

    /// A body at `pos` moving with `vel` (per tick), with default mass,
    /// radius and restitution; its previous position is one tick back.
    pub fn new_with_pos_and_vel(pos: Vec2, vel: Vec2) -> (r: ParticleBundle)
        ensures
            r.pos.0 == pos,
            r.vel.0 == vel,
            r.prev_pos.0.x == clamp(pos.x - vel.x),
            r.prev_pos.0.y == clamp(pos.y - vel.y),
            r.pre_solve_vel.0.x == 0,
            r.pre_solve_vel.0.y == 0,
            r.mass.0 == 1,
            r.collider.radius == 500000,
            r.restitution.0 == 300,
    {
        let prev = Vec2 {
            x: fit(pos.x as i128 - vel.x as i128),
            y: fit(pos.y as i128 - vel.y as i128),
        };
        ParticleBundle {
            pos: Pos(pos),
            prev_pos: PrevPos(prev),
            mass: Mass::default(),
            collider: CircleCollider::default(),
            vel: Vel(vel),
            pre_solve_vel: PreSolveVel(Vec2::zero()),
            restitution: Restitution::default(),
        }
    }
}

} // verus!
