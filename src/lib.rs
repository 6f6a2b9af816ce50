//! A two-dimensional rigid-circle physics core using extended
//! position-based dynamics, over integer fixed-point units.
pub mod component;
pub mod entity;
pub mod fixed;
pub mod laws;
pub mod pairs;
pub mod solver;
pub mod world;

pub use component::{
    CircleCollider, Contacts, Gravity, Mass, Pos, PreSolveVel, PrevPos, Restitution,
    StaticColliderBundle, StaticContacts, Vec2, Vel, RESTITUTION_SCALE,
};
pub use entity::ParticleBundle;
pub use fixed::{fit, floor_div, isqrt, COORD_LIMIT};
pub use pairs::{cross_pair_list, unique_pair_list};
pub use solver::{solve_pair_pos, solve_pair_vel, solve_static_pair_pos, solve_static_pair_vel};
pub use world::{SimError, XPBDPlugin};
