//! The body store and the fixed-step pipeline: integrate, project
//! positions, derive velocities, apply restitution.
use vstd::prelude::*;
use crate::component::{
    Contacts, Gravity, Pos, PreSolveVel, PrevPos, StaticColliderBundle, StaticContacts, Vec2, Vel,
};
use crate::entity::ParticleBundle;
use crate::fixed::{clamp, fit, COORD_LIMIT};
use vstd::arithmetic::div_mod::lemma_fundamental_div_mod_converse;
use crate::pairs::{cross_pair_list, cross_pairs, unique_pair_list, unique_pairs};
use crate::solver::{
    overlap_test, pair_overlaps, pos_pair, solve_pair_pos, solve_pair_vel, solve_static_pair_pos,
    solve_static_pair_vel, static_overlap_test, static_overlaps, static_pos_pair, static_vel_pair,
    vel_pair,
};

verus! {

pub open spec fn bodies_wf(s: Seq<ParticleBundle>) -> bool {
    forall|i: int| 0 <= i < s.len() ==> (#[trigger] s[i]).well_formed()
}

pub open spec fn statics_wf(s: Seq<StaticColliderBundle>) -> bool {
    forall|i: int| 0 <= i < s.len() ==> (#[trigger] s[i]).well_formed()
}

/// Every contact names two distinct dynamic bodies, the lower index first.
pub open spec fn contacts_valid(c: Seq<(usize, usize)>, n: int) -> bool {
    forall|k: int| 0 <= k < c.len() ==> (#[trigger] c[k]).0 < c[k].1 < n
}

/// Every static contact names a dynamic body, then a static one.
pub open spec fn static_contacts_valid(c: Seq<(usize, usize)>, n: int, m: int) -> bool {
    forall|k: int| 0 <= k < c.len() ==> (#[trigger] c[k]).0 < n && c[k].1 < m
}

/// One semi-implicit Euler tick under gravity `g`.
pub open spec fn integrate_body(b: ParticleBundle, g: Vec2) -> ParticleBundle {
    let v = Vec2 { x: clamp(b.vel.0.x + g.x) as i64, y: clamp(b.vel.0.y + g.y) as i64 };
    ParticleBundle {
        prev_pos: PrevPos(b.pos.0),
        vel: Vel(v),
        pos: Pos(Vec2 { x: clamp(b.pos.0.x + v.x) as i64, y: clamp(b.pos.0.y + v.y) as i64 }),
        pre_solve_vel: PreSolveVel(v),
        ..b
    }
}

pub open spec fn integrate_all(s: Seq<ParticleBundle>, g: Vec2) -> Seq<ParticleBundle> {
    Seq::new(s.len(), |i: int| integrate_body(s[i], g))
}

/// Velocity re-derived from the displacement over one tick.
pub open spec fn velocity_from_position(b: ParticleBundle) -> ParticleBundle {
    ParticleBundle {
        vel: Vel(
            Vec2 {
                x: clamp(b.pos.0.x - b.prev_pos.0.x) as i64,
                y: clamp(b.pos.0.y - b.prev_pos.0.y) as i64,
            },
        ),
        ..b
    }
}

pub open spec fn update_all(s: Seq<ParticleBundle>) -> Seq<ParticleBundle> {
    Seq::new(s.len(), |i: int| velocity_from_position(s[i]))
}

/// Contact finder: the candidate pairs, in order, whose bodies overlap at
/// the positions `s`.
pub open spec fn found_pairs(s: Seq<ParticleBundle>, pairs: Seq<(usize, usize)>) -> Seq<(usize, usize)>
    decreases pairs.len(),
{
    if pairs.len() == 0 {
        Seq::empty()
    } else {
        let prev = found_pairs(s, pairs.drop_last());
        let p = pairs.last();
        if pair_overlaps(s[p.0 as int], s[p.1 as int]) {
            prev.push(p)
        } else {
            prev
        }
    }
}

/// Contact finder against obstacles: the candidate pairs
/// `(dynamic, static)`, in order, that overlap at the positions `s`.
pub open spec fn found_static_pairs(
    s: Seq<ParticleBundle>,
    statics: Seq<StaticColliderBundle>,
    pairs: Seq<(usize, usize)>,
) -> Seq<(usize, usize)>
    decreases pairs.len(),
{
    if pairs.len() == 0 {
        Seq::empty()
    } else {
        let prev = found_static_pairs(s, statics, pairs.drop_last());
        let p = pairs.last();
        if static_overlaps(s[p.0 as int], statics[p.1 as int]) {
            prev.push(p)
        } else {
            prev
        }
    }
}

/// Position projection over the contacts in order; each pair is tested
/// again on the positions at hand and projected only if still overlapping.
pub open spec fn pos_pass(s: Seq<ParticleBundle>, contacts: Seq<(usize, usize)>) -> Seq<ParticleBundle>
    decreases contacts.len(),
{
    if contacts.len() == 0 {
        s
    } else {
        let prev = pos_pass(s, contacts.drop_last());
        let p = contacts.last();
        let r = pos_pair(prev[p.0 as int], prev[p.1 as int]);
        prev.update(p.0 as int, r.0).update(p.1 as int, r.1)
    }
}

/// Projection of dynamic bodies out of obstacles over the static contacts
/// in order, each tested again on the positions at hand.
pub open spec fn static_pos_pass(
    s: Seq<ParticleBundle>,
    statics: Seq<StaticColliderBundle>,
    contacts: Seq<(usize, usize)>,
) -> Seq<ParticleBundle>
    decreases contacts.len(),
{
    if contacts.len() == 0 {
        s
    } else {
        let prev = static_pos_pass(s, statics, contacts.drop_last());
        let p = contacts.last();
        prev.update(p.0 as int, static_pos_pair(prev[p.0 as int], statics[p.1 as int]).0)
    }
}

/// Restitution over the dynamic contacts in order.
pub open spec fn vel_pass(s: Seq<ParticleBundle>, contacts: Seq<(usize, usize)>) -> Seq<ParticleBundle>
    decreases contacts.len(),
{
    if contacts.len() == 0 {
        s
    } else {
        let prev = vel_pass(s, contacts.drop_last());
        let p = contacts.last();
        let r = vel_pair(prev[p.0 as int], prev[p.1 as int]);
        prev.update(p.0 as int, r.0).update(p.1 as int, r.1)
    }
}

/// Restitution over the static contacts in order.
pub open spec fn static_vel_pass(
    s: Seq<ParticleBundle>,
    statics: Seq<StaticColliderBundle>,
    contacts: Seq<(usize, usize)>,
) -> Seq<ParticleBundle>
    decreases contacts.len(),
{
    if contacts.len() == 0 {
        s
    } else {
        let prev = static_vel_pass(s, statics, contacts.drop_last());
        let p = contacts.last();
        prev.update(p.0 as int, static_vel_pair(prev[p.0 as int], statics[p.1 as int]))
    }
}

/// One full tick: the bodies after it, the dynamic contacts and the static
/// contacts it found.
pub open spec fn step_result(
    s: Seq<ParticleBundle>,
    statics: Seq<StaticColliderBundle>,
    g: Vec2,
) -> (Seq<ParticleBundle>, Seq<(usize, usize)>, Seq<(usize, usize)>) {
    let s1 = integrate_all(s, g);
    let c = found_pairs(s1, unique_pairs(s.len() as int));
    let s2 = pos_pass(s1, c);
    let sc = found_static_pairs(s2, statics, cross_pairs(s.len() as int, statics.len() as int));
    let s3 = static_pos_pass(s2, statics, sc);
    let s4 = update_all(s3);
    let s5 = vel_pass(s4, c);
    (static_vel_pass(s5, statics, sc), c, sc)
}

/// The bodies and the two contact lists after `ticks` full ticks from
/// bodies `s` and contact lists `c`, `sc`: with no tick the lists are those
/// given, else those of the last tick.
pub open spec fn run_ticks(
    s: Seq<ParticleBundle>,
    c: Seq<(usize, usize)>,
    sc: Seq<(usize, usize)>,
    statics: Seq<StaticColliderBundle>,
    g: Vec2,
    ticks: nat,
) -> (Seq<ParticleBundle>, Seq<(usize, usize)>, Seq<(usize, usize)>)
    decreases ticks,
{
    if ticks == 0 {
        (s, c, sc)
    } else {
        step_result(run_ticks(s, c, sc, statics, g, (ticks - 1) as nat).0, statics, g)
    }
}

/// Why a body or a setting was refused.
#[derive(Clone, Copy, Debug, PartialEq, Eq, Structural)]
pub enum SimError {
    /// A dynamic body with zero mass.
    InvalidMass,
    /// A collider radius beyond the world range.
    InvalidRadius,
    /// A position, velocity or gravity component beyond the world range.
    OutOfRange,
    /// A tick length of zero.
    InvalidTickLength,
}

/// The simulation: body store, gravity, contact lists of the current tick
/// and the fixed-step accumulator.
///
/// The world is bounded: every position and velocity component is kept
/// within `[-COORD_LIMIT, COORD_LIMIT]` (2^28 length units, about 268 m in
/// micrometres). A value that a tick would carry beyond that bound
/// saturates at it, silently; the bound keeps every intermediate product
/// of the solver within 128 bits.
#[derive(Debug)]
pub struct XPBDPlugin {
    pub particles: Vec<ParticleBundle>,
    pub statics: Vec<StaticColliderBundle>,
    pub gravity: Gravity,
    pub contacts: Contacts,
    pub static_contacts: StaticContacts,
    /// Host time units per tick.
    pub tick_length: u64,
    /// Host time received and not yet spent on ticks.
    pub accumulated_time: u64,
}

impl XPBDPlugin {
    /// Same obstacles, gravity and clock state.
    pub open spec fn same_config(&self, o: &XPBDPlugin) -> bool {
        &&& self.statics@ == o.statics@
        &&& self.gravity == o.gravity
        &&& self.tick_length == o.tick_length
        &&& self.accumulated_time == o.accumulated_time
    }

    pub open spec fn well_formed(&self) -> bool {
        &&& bodies_wf(self.particles@)
        &&& statics_wf(self.statics@)
        &&& self.gravity.0.in_range()
        &&& self.tick_length > 0
        &&& self.accumulated_time < self.tick_length
        &&& contacts_valid(self.contacts.0@, self.particles@.len() as int)
        &&& static_contacts_valid(
            self.static_contacts.0@,
            self.particles@.len() as int,
            self.statics@.len() as int,
        )
    }
}

impl XPBDPlugin {
    /// Integrator: every dynamic body takes one semi-implicit Euler tick.
    pub fn integrate(&mut self)
        requires
            old(self).well_formed(),
        ensures
            final(self).well_formed(),
            final(self).particles@.len() == old(self).particles@.len(),
            final(self).particles@ == integrate_all(old(self).particles@, old(self).gravity.0),
            final(self).statics@ == old(self).statics@,
            final(self).gravity == old(self).gravity,
            final(self).contacts.0@ == old(self).contacts.0@,
            final(self).static_contacts.0@ == old(self).static_contacts.0@,
            final(self).tick_length == old(self).tick_length,
            final(self).accumulated_time == old(self).accumulated_time,
    {
        let ghost s0 = self.particles@;
        let g = self.gravity.0;
        let n = self.particles.len();
        let mut i: usize = 0;
        while i < n
            invariant
                self.well_formed(),
                n == self.particles@.len() == s0.len(),
                g == self.gravity.0,
                i <= n,
                self.statics@ == old(self).statics@,
                self.gravity == old(self).gravity,
                self.contacts.0@ == old(self).contacts.0@,
                self.static_contacts.0@ == old(self).static_contacts.0@,
                self.tick_length == old(self).tick_length,
                self.accumulated_time == old(self).accumulated_time,
                forall|k: int| 0 <= k < i ==> self.particles@[k] == integrate_body(s0[k], g),
                forall|k: int| i <= k < n ==> self.particles@[k] == s0[k],
            decreases n - i,
        {
            let b = self.particles[i];
            let vx = fit(b.vel.0.x as i128 + g.x as i128);
            let vy = fit(b.vel.0.y as i128 + g.y as i128);
            let v = Vec2 { x: vx, y: vy };
            let nb = ParticleBundle {
                prev_pos: PrevPos(b.pos.0),
                vel: Vel(v),
                pos: Pos(Vec2 { x: fit(b.pos.0.x as i128 + vx as i128), y: fit(b.pos.0.y as i128 + vy as i128) }),
                pre_solve_vel: PreSolveVel(v),
                ..b
            };
            self.particles.set(i, nb);
            i = i + 1;
        }
        proof {
            assert(self.particles@ =~= integrate_all(s0, g));
        }
    }

    /// Velocity-from-position update for every dynamic body.
    pub fn update_vel(&mut self)
        requires
            old(self).well_formed(),
        ensures
            final(self).well_formed(),
            final(self).particles@.len() == old(self).particles@.len(),
            final(self).particles@ == update_all(old(self).particles@),
            final(self).statics@ == old(self).statics@,
            final(self).gravity == old(self).gravity,
            final(self).contacts.0@ == old(self).contacts.0@,
            final(self).static_contacts.0@ == old(self).static_contacts.0@,
            final(self).tick_length == old(self).tick_length,
            final(self).accumulated_time == old(self).accumulated_time,
    {
        let ghost s0 = self.particles@;
        let n = self.particles.len();
        let mut i: usize = 0;
        while i < n
            invariant
                self.well_formed(),
                n == self.particles@.len() == s0.len(),
                i <= n,
                self.statics@ == old(self).statics@,
                self.gravity == old(self).gravity,
                self.contacts.0@ == old(self).contacts.0@,
                self.static_contacts.0@ == old(self).static_contacts.0@,
                self.tick_length == old(self).tick_length,
                self.accumulated_time == old(self).accumulated_time,
                forall|k: int| 0 <= k < i ==> self.particles@[k] == velocity_from_position(s0[k]),
                forall|k: int| i <= k < n ==> self.particles@[k] == s0[k],
            decreases n - i,
        {
            let b = self.particles[i];
            let nb = ParticleBundle {
                vel: Vel(
                    Vec2 {
                        x: fit(b.pos.0.x as i128 - b.prev_pos.0.x as i128),
                        y: fit(b.pos.0.y as i128 - b.prev_pos.0.y as i128),
                    },
                ),
                ..b
            };
            self.particles.set(i, nb);
            i = i + 1;
        }
        proof {
            assert(self.particles@ =~= update_all(s0));
        }
    }
}

impl XPBDPlugin {
    /// Contact finder for dynamic pairs: every unordered pair overlapping at
    /// the current positions, in lexicographic order.
    pub fn find_contacts(&mut self)
        requires
            old(self).well_formed(),
        ensures
            final(self).well_formed(),
            final(self).particles@ == old(self).particles@,
            final(self).contacts.0@ == found_pairs(
                old(self).particles@,
                unique_pairs(old(self).particles@.len() as int),
            ),
            final(self).same_config(old(self)),
            final(self).static_contacts.0@ == old(self).static_contacts.0@,
    {
        let n = self.particles.len();
        let pairs = unique_pair_list(n);
        self.contacts.0 = Vec::new();
        let mut k: usize = 0;
        while k < pairs.len()
            invariant
                self.well_formed(),
                n == self.particles@.len(),
                self.particles@ == old(self).particles@,
                k <= pairs@.len(),
                pairs@ == unique_pairs(n as int),
                forall|t: int| 0 <= t < pairs@.len() ==> (#[trigger] pairs@[t]).0 < pairs@[t].1 < n,
                self.same_config(old(self)),
                self.static_contacts.0@ == old(self).static_contacts.0@,
                self.contacts.0@ == found_pairs(self.particles@, pairs@.take(k as int)),
            decreases pairs@.len() - k,
        {
            let (i, j) = pairs[k];
            if overlap_test(&self.particles[i], &self.particles[j]) {
                self.contacts.0.push((i, j));
            }
            proof {
                assert(pairs@.take(k + 1).drop_last() =~= pairs@.take(k as int));
            }
            k = k + 1;
        }
        proof {
            assert(pairs@.take(k as int) =~= pairs@);
        }
    }

    /// Position solver for dynamic pairs: the contacts in order, each
    /// projected apart if it still overlaps when its turn comes.
    pub fn project_contacts(&mut self)
        requires
            old(self).well_formed(),
        ensures
            final(self).well_formed(),
            final(self).particles@.len() == old(self).particles@.len(),
            final(self).particles@ == pos_pass(old(self).particles@, old(self).contacts.0@),
            final(self).same_config(old(self)),
            final(self).contacts.0@ == old(self).contacts.0@,
            final(self).static_contacts.0@ == old(self).static_contacts.0@,
    {
        let ghost s0 = self.particles@;
        let n = self.particles.len();
        let mut k: usize = 0;
        while k < self.contacts.0.len()
            invariant
                self.well_formed(),
                n == self.particles@.len(),
                k <= self.contacts.0@.len(),
                self.same_config(old(self)),
                self.contacts.0@ == old(self).contacts.0@,
                self.static_contacts.0@ == old(self).static_contacts.0@,
                self.particles@ == pos_pass(s0, self.contacts.0@.take(k as int)),
            decreases self.contacts.0@.len() - k,
        {
            let (i, j) = self.contacts.0[k];
            let a = self.particles[i];
            let b = self.particles[j];
            let (na, nb, _) = solve_pair_pos(a, b);
            self.particles.set(i, na);
            self.particles.set(j, nb);
            proof {
                assert(self.contacts.0@.take(k + 1).drop_last() =~= self.contacts.0@.take(k as int));
            }
            k = k + 1;
        }
        proof {
            assert(self.contacts.0@.take(k as int) =~= self.contacts.0@);
        }
    }

    /// Contact finder, then position solver, for dynamic pairs.
    pub fn solve_pos(&mut self)
        requires
            old(self).well_formed(),
        ensures
            final(self).well_formed(),
            final(self).particles@.len() == old(self).particles@.len(),
            final(self).contacts.0@ == found_pairs(
                old(self).particles@,
                unique_pairs(old(self).particles@.len() as int),
            ),
            final(self).particles@ == pos_pass(old(self).particles@, final(self).contacts.0@),
            final(self).same_config(old(self)),
            final(self).static_contacts.0@ == old(self).static_contacts.0@,
    {
        self.find_contacts();
        self.project_contacts();
    }

    /// Contact finder against obstacles: every `(dynamic, static)` pair
    /// overlapping at the current positions, dynamic index first.
    pub fn find_static_contacts(&mut self)
        requires
            old(self).well_formed(),
        ensures
            final(self).well_formed(),
            final(self).particles@ == old(self).particles@,
            final(self).static_contacts.0@ == found_static_pairs(
                old(self).particles@,
                old(self).statics@,
                cross_pairs(old(self).particles@.len() as int, old(self).statics@.len() as int),
            ),
            final(self).same_config(old(self)),
            final(self).contacts.0@ == old(self).contacts.0@,
    {
        let n = self.particles.len();
        let m = self.statics.len();
        let pairs = cross_pair_list(n, m);
        self.static_contacts.0 = Vec::new();
        let mut k: usize = 0;
        while k < pairs.len()
            invariant
                self.well_formed(),
                n == self.particles@.len(),
                m == self.statics@.len(),
                self.particles@ == old(self).particles@,
                k <= pairs@.len(),
                pairs@ == cross_pairs(n as int, m as int),
                forall|t: int| 0 <= t < pairs@.len() ==> (#[trigger] pairs@[t]).0 < n && pairs@[t].1 < m,
                self.same_config(old(self)),
                self.contacts.0@ == old(self).contacts.0@,
                self.static_contacts.0@ == found_static_pairs(
                    self.particles@,
                    self.statics@,
                    pairs@.take(k as int),
                ),
            decreases pairs@.len() - k,
        {
            let (i, j) = pairs[k];
            if static_overlap_test(&self.particles[i], &self.statics[j]) {
                self.static_contacts.0.push((i, j));
            }
            proof {
                assert(pairs@.take(k + 1).drop_last() =~= pairs@.take(k as int));
            }
            k = k + 1;
        }
        proof {
            assert(pairs@.take(k as int) =~= pairs@);
        }
    }

    /// Position solver against obstacles: the static contacts in order, each
    /// projected out if it still overlaps when its turn comes.
    pub fn project_static_contacts(&mut self)
        requires
            old(self).well_formed(),
        ensures
            final(self).well_formed(),
            final(self).particles@.len() == old(self).particles@.len(),
            final(self).particles@ == static_pos_pass(
                old(self).particles@,
                old(self).statics@,
                old(self).static_contacts.0@,
            ),
            final(self).same_config(old(self)),
            final(self).contacts.0@ == old(self).contacts.0@,
            final(self).static_contacts.0@ == old(self).static_contacts.0@,
    {
        let ghost s0 = self.particles@;
        let n = self.particles.len();
        let mut k: usize = 0;
        while k < self.static_contacts.0.len()
            invariant
                self.well_formed(),
                n == self.particles@.len(),
                k <= self.static_contacts.0@.len(),
                self.same_config(old(self)),
                self.contacts.0@ == old(self).contacts.0@,
                self.static_contacts.0@ == old(self).static_contacts.0@,
                self.particles@ == static_pos_pass(
                    s0,
                    self.statics@,
                    self.static_contacts.0@.take(k as int),
                ),
            decreases self.static_contacts.0@.len() - k,
        {
            let (i, j) = self.static_contacts.0[k];
            let p = self.particles[i];
            let (np, _) = solve_static_pair_pos(p, &self.statics[j]);
            self.particles.set(i, np);
            proof {
                assert(self.static_contacts.0@.take(k + 1).drop_last()
                    =~= self.static_contacts.0@.take(k as int));
            }
            k = k + 1;
        }
        proof {
            assert(self.static_contacts.0@.take(k as int) =~= self.static_contacts.0@);
        }
    }

    /// Contact finder, then position solver, against obstacles.
    pub fn solve_static_pos(&mut self)
        requires
            old(self).well_formed(),
        ensures
            final(self).well_formed(),
            final(self).particles@.len() == old(self).particles@.len(),
            final(self).static_contacts.0@ == found_static_pairs(
                old(self).particles@,
                old(self).statics@,
                cross_pairs(old(self).particles@.len() as int, old(self).statics@.len() as int),
            ),
            final(self).particles@ == static_pos_pass(
                old(self).particles@,
                old(self).statics@,
                final(self).static_contacts.0@,
            ),
            final(self).same_config(old(self)),
            final(self).contacts.0@ == old(self).contacts.0@,
    {
        self.find_static_contacts();
        self.project_static_contacts();
    }

    /// Restitution for every dynamic contact of this tick, in order.
    pub fn solve_vel(&mut self)
        requires
            old(self).well_formed(),
        ensures
            final(self).well_formed(),
            final(self).particles@.len() == old(self).particles@.len(),
            final(self).particles@ == vel_pass(old(self).particles@, old(self).contacts.0@),
            final(self).same_config(old(self)),
            final(self).contacts.0@ == old(self).contacts.0@,
            final(self).static_contacts.0@ == old(self).static_contacts.0@,
    {
        let ghost s0 = self.particles@;
        let n = self.particles.len();
        let mut k: usize = 0;
        while k < self.contacts.0.len()
            invariant
                self.well_formed(),
                n == self.particles@.len(),
                k <= self.contacts.0@.len(),
                self.same_config(old(self)),
                self.contacts.0@ == old(self).contacts.0@,
                self.static_contacts.0@ == old(self).static_contacts.0@,
                self.particles@ == vel_pass(s0, self.contacts.0@.take(k as int)),
            decreases self.contacts.0@.len() - k,
        {
            let (i, j) = self.contacts.0[k];
            let a = self.particles[i];
            let b = self.particles[j];
            let (na, nb) = solve_pair_vel(a, b);
            self.particles.set(i, na);
            self.particles.set(j, nb);
            proof {
                assert(self.contacts.0@.take(k + 1).drop_last() =~= self.contacts.0@.take(k as int));
            }
            k = k + 1;
        }
        proof {
            assert(self.contacts.0@.take(k as int) =~= self.contacts.0@);
        }
    }

    /// Restitution for every static contact of this tick, in order.
    pub fn solve_static_vel(&mut self)
        requires
            old(self).well_formed(),
        ensures
            final(self).well_formed(),
            final(self).particles@.len() == old(self).particles@.len(),
            final(self).particles@ == static_vel_pass(
                old(self).particles@,
                old(self).statics@,
                old(self).static_contacts.0@,
            ),
            final(self).same_config(old(self)),
            final(self).contacts.0@ == old(self).contacts.0@,
            final(self).static_contacts.0@ == old(self).static_contacts.0@,
    {
        let ghost s0 = self.particles@;
        let n = self.particles.len();
        let mut k: usize = 0;
        while k < self.static_contacts.0.len()
            invariant
                self.well_formed(),
                n == self.particles@.len(),
                k <= self.static_contacts.0@.len(),
                self.same_config(old(self)),
                self.contacts.0@ == old(self).contacts.0@,
                self.static_contacts.0@ == old(self).static_contacts.0@,
                self.particles@ == static_vel_pass(
                    s0,
                    self.statics@,
                    self.static_contacts.0@.take(k as int),
                ),
            decreases self.static_contacts.0@.len() - k,
        {
            let (i, j) = self.static_contacts.0[k];
            let p = self.particles[i];
            let np = solve_static_pair_vel(p, &self.statics[j]);
            self.particles.set(i, np);
            proof {
                assert(self.static_contacts.0@.take(k + 1).drop_last()
                    =~= self.static_contacts.0@.take(k as int));
            }
            k = k + 1;
        }
        proof {
            assert(self.static_contacts.0@.take(k as int) =~= self.static_contacts.0@);
        }
    }
}

/// The refusal a new dynamic body meets, if any: zero mass first, then an
/// oversized radius, then a vector beyond the world range.
pub open spec fn particle_error(p: ParticleBundle) -> Option<SimError> {
    if p.mass.0 == 0 {
        Some(SimError::InvalidMass)
    } else if p.collider.radius > COORD_LIMIT {
        Some(SimError::InvalidRadius)
    } else if !(p.pos.0.in_range() && p.prev_pos.0.in_range() && p.vel.0.in_range()
        && p.pre_solve_vel.0.in_range()) {
        Some(SimError::OutOfRange)
    } else {
        None
    }
}

/// The refusal a new obstacle meets, if any.
pub open spec fn static_error(s: StaticColliderBundle) -> Option<SimError> {
    if s.collider.radius > COORD_LIMIT {
        Some(SimError::InvalidRadius)
    } else if !s.pos.0.in_range() {
        Some(SimError::OutOfRange)
    } else {
        None
    }
}

impl XPBDPlugin {
    /// An empty world with default gravity, ticking once per `tick_length`
    /// units of host time.
    pub fn new(tick_length: u64) -> (r: Result<XPBDPlugin, SimError>)
        ensures
            tick_length == 0 <==> r == Err::<XPBDPlugin, SimError>(SimError::InvalidTickLength),
            tick_length > 0 <==> r is Ok,
            r is Ok ==> {
                let w = r->Ok_0;
                &&& w.well_formed()
                &&& w.particles@.len() == 0
                &&& w.statics@.len() == 0
                &&& w.contacts.0@.len() == 0
                &&& w.static_contacts.0@.len() == 0
                &&& w.gravity.0.x == 0 && w.gravity.0.y == -2725
                &&& w.tick_length == tick_length
                &&& w.accumulated_time == 0
            },
    {
        if tick_length == 0 {
            return Err(SimError::InvalidTickLength);
        }
        Ok(XPBDPlugin {
            particles: Vec::new(),
            statics: Vec::new(),
            gravity: Gravity::default(),
            contacts: Contacts(Vec::new()),
            static_contacts: StaticContacts(Vec::new()),
            tick_length,
            accumulated_time: 0,
        })
    }

    /// Registers a dynamic body; its index is returned.
    pub fn spawn(&mut self, p: ParticleBundle) -> (r: Result<usize, SimError>)
        requires
            old(self).well_formed(),
        ensures
            final(self).well_formed(),
            final(self).same_config(old(self)),
            final(self).contacts.0@ == old(self).contacts.0@,
            final(self).static_contacts.0@ == old(self).static_contacts.0@,
            match particle_error(p) {
                Some(e) => r == Err::<usize, SimError>(e) && final(self).particles@ == old(
                    self,
                ).particles@,
                None => r == Ok::<usize, SimError>(old(self).particles@.len() as usize)
                    && final(self).particles@ == old(self).particles@.push(p),
            },
    {
        if p.mass.0 == 0 {
            return Err(SimError::InvalidMass);
        }
        if p.collider.radius > COORD_LIMIT as u32 {
            return Err(SimError::InvalidRadius);
        }
        if !(p.pos.0.is_in_range() && p.prev_pos.0.is_in_range() && p.vel.0.is_in_range()
            && p.pre_solve_vel.0.is_in_range()) {
            return Err(SimError::OutOfRange);
        }
        let idx = self.particles.len();
        self.particles.push(p);
        proof {
            assert(bodies_wf(self.particles@));
        }
        Ok(idx)
    }

    /// Registers a static obstacle; its index is returned.
    pub fn add_static(&mut self, s: StaticColliderBundle) -> (r: Result<usize, SimError>)
        requires
            old(self).well_formed(),
        ensures
            final(self).well_formed(),
            final(self).particles@ == old(self).particles@,
            final(self).gravity == old(self).gravity,
            final(self).tick_length == old(self).tick_length,
            final(self).accumulated_time == old(self).accumulated_time,
            final(self).contacts.0@ == old(self).contacts.0@,
            final(self).static_contacts.0@ == old(self).static_contacts.0@,
            match static_error(s) {
                Some(e) => r == Err::<usize, SimError>(e) && final(self).statics@ == old(
                    self,
                ).statics@,
                None => r == Ok::<usize, SimError>(old(self).statics@.len() as usize)
                    && final(self).statics@ == old(self).statics@.push(s),
            },
    {
        if s.collider.radius > COORD_LIMIT as u32 {
            return Err(SimError::InvalidRadius);
        }
        if !s.pos.0.is_in_range() {
            return Err(SimError::OutOfRange);
        }
        let idx = self.statics.len();
        self.statics.push(s);
        proof {
            assert(statics_wf(self.statics@));
        }
        Ok(idx)
    }

    /// Removes dynamic body `i`; later bodies shift down by one. The contact
    /// lists of the last tick are emptied, as their indices no longer hold.
    pub fn despawn(&mut self, i: usize) -> (r: Option<ParticleBundle>)
        requires
            old(self).well_formed(),
        ensures
            final(self).well_formed(),
            final(self).same_config(old(self)),
            i < old(self).particles@.len() ==> r == Some(old(self).particles@[i as int])
                && final(self).particles@ == old(self).particles@.remove(i as int)
                && final(self).contacts.0@.len() == 0 && final(self).static_contacts.0@.len() == 0,
            i >= old(self).particles@.len() ==> r is None && final(self).particles@ == old(
                self,
            ).particles@ && final(self).contacts.0@ == old(self).contacts.0@
                && final(self).static_contacts.0@ == old(self).static_contacts.0@,
    {
        if i >= self.particles.len() {
            return None;
        }
        let b = self.particles.remove(i);
        self.contacts.0 = Vec::new();
        self.static_contacts.0 = Vec::new();
        proof {
            assert forall|k: int| 0 <= k < self.particles@.len() implies (
            #[trigger] self.particles@[k]).well_formed() by {
                if k < i {
                    assert(self.particles@[k] == old(self).particles@[k]);
                } else {
                    assert(self.particles@[k] == old(self).particles@[k + 1]);
                }
            }
        }
        Some(b)
    }

    /// Replaces the gravity vector.
    pub fn set_gravity(&mut self, g: Vec2) -> (r: Result<(), SimError>)
        requires
            old(self).well_formed(),
        ensures
            final(self).well_formed(),
            final(self).particles@ == old(self).particles@,
            final(self).statics@ == old(self).statics@,
            final(self).contacts.0@ == old(self).contacts.0@,
            final(self).static_contacts.0@ == old(self).static_contacts.0@,
            final(self).tick_length == old(self).tick_length,
            final(self).accumulated_time == old(self).accumulated_time,
            g.in_range() ==> r is Ok && final(self).gravity.0 == g,
            !g.in_range() ==> r == Err::<(), SimError>(SimError::OutOfRange) && final(self).gravity
                == old(self).gravity,
    {
        if !g.is_in_range() {
            return Err(SimError::OutOfRange);
        }
        self.gravity = Gravity(g);
        Ok(())
    }

    /// Pose readback: each dynamic body's index with its position.
    pub fn poses(&self) -> (r: Vec<(usize, Vec2)>)
        ensures
            r@.len() == self.particles@.len(),
            forall|i: int|
                0 <= i < r@.len() ==> #[trigger] r@[i] == (i as usize, self.particles@[i].pos.0),
    {
        let mut r: Vec<(usize, Vec2)> = Vec::new();
        let mut i: usize = 0;
        while i < self.particles.len()
            invariant
                i <= self.particles@.len(),
                r@.len() == i,
                forall|k: int| 0 <= k < i ==> #[trigger] r@[k] == (k as usize, self.particles@[k].pos.0),
            decreases self.particles@.len() - i,
        {
            r.push((i, self.particles[i].pos.0));
            i = i + 1;
        }
        r
    }

    /// One fixed tick of the whole pipeline. Positions and velocities that
    /// would leave the world range saturate at `COORD_LIMIT` (see
    /// `step_result`).
    pub fn step(&mut self)
        requires
            old(self).well_formed(),
        ensures
            final(self).well_formed(),
            final(self).particles@.len() == old(self).particles@.len(),
            (final(self).particles@, final(self).contacts.0@, final(self).static_contacts.0@)
                == step_result(old(self).particles@, old(self).statics@, old(self).gravity.0),
            final(self).same_config(old(self)),
    {
        self.integrate();
        self.solve_pos();
        self.solve_static_pos();
        self.update_vel();
        self.solve_vel();
        self.solve_static_vel();
    }

    /// Feeds `elapsed` units of host time to the accumulator and runs one
    /// tick for every whole `tick_length` accumulated; the number of ticks
    /// run is returned. As in `step`, positions and velocities saturate at
    /// `COORD_LIMIT`.
    pub fn advance(&mut self, elapsed: u64) -> (ticks: u64)
        requires
            old(self).well_formed(),
        ensures
            final(self).well_formed(),
            ticks as int == (old(self).accumulated_time + elapsed) / old(self).tick_length as int,
            final(self).accumulated_time as int == (old(self).accumulated_time + elapsed)
                % old(self).tick_length as int,
            (final(self).particles@, final(self).contacts.0@, final(self).static_contacts.0@)
                == run_ticks(
                old(self).particles@,
                old(self).contacts.0@,
                old(self).static_contacts.0@,
                old(self).statics@,
                old(self).gravity.0,
                ticks as nat,
            ),
            final(self).statics@ == old(self).statics@,
            final(self).gravity == old(self).gravity,
            final(self).tick_length == old(self).tick_length,
    {
        let ghost s0 = self.particles@;
        let ghost c0 = self.contacts.0@;
        let ghost sc0 = self.static_contacts.0@;
        let tl: u128 = self.tick_length as u128;
        let total: u128 = self.accumulated_time as u128 + elapsed as u128;
        let mut rest: u128 = total;
        let mut count: u128 = 0;
        while rest >= tl
            invariant
                self.well_formed(),
                tl == self.tick_length as u128,
                tl >= 1,
                total == old(self).accumulated_time + elapsed,
                rest + count * tl == total,
                count <= total,
                self.statics@ == old(self).statics@,
                self.gravity == old(self).gravity,
                self.tick_length == old(self).tick_length,
                self.accumulated_time == old(self).accumulated_time,
                (self.particles@, self.contacts.0@, self.static_contacts.0@) == run_ticks(
                    s0,
                    c0,
                    sc0,
                    self.statics@,
                    self.gravity.0,
                    count as nat,
                ),
            decreases rest,
        {
            self.step();
            proof {
                assert((count + 1) * tl == count * tl + tl) by (nonlinear_arith);
                assert(count + 1 <= (count + 1) * tl) by (nonlinear_arith)
                    requires
                        tl >= 1,
                        count >= 0,
                ;
            }
            rest = rest - tl;
            count = count + 1;
        }
        proof {
            lemma_fundamental_div_mod_converse(total as int, tl as int, count as int, rest as int);
            let acc = old(self).accumulated_time as int;
            assert(count < 0x1_0000_0000_0000_0000) by (nonlinear_arith)
                requires
                    rest + count * tl == total,
                    total == acc + elapsed,
                    0 <= acc < tl,
                    elapsed < 0x1_0000_0000_0000_0000,
                    rest >= 0,
                    tl >= 1,
            ;
        }
        self.accumulated_time = rest as u64;
        count as u64
    }
}

} // verus!
