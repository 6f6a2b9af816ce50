//! Contact response for one pair of bodies: positional projection and
//! restitution, for dynamic-dynamic and dynamic-static pairs.
use vstd::prelude::*;
use crate::component::{
    Pos, StaticColliderBundle, Vec2, Vel, RESTITUTION_SCALE,
};
use crate::entity::ParticleBundle;
use crate::fixed::{clamp, fit, floor_div, isqrt, lemma_div_bound, lemma_mul_bound, root};

verus! {

/// `b` moved to `(x, y)`, saturated to the world range.
pub open spec fn with_pos(b: ParticleBundle, x: int, y: int) -> ParticleBundle {
    ParticleBundle { pos: Pos(Vec2 { x: clamp(x) as i64, y: clamp(y) as i64 }), ..b }
}

/// `b` with velocity `(x, y)`, saturated to the world range.
pub open spec fn with_vel(b: ParticleBundle, x: int, y: int) -> ParticleBundle {
    ParticleBundle { vel: Vel(Vec2 { x: clamp(x) as i64, y: clamp(y) as i64 }), ..b }
}

/// Two circles whose centres are `sqrt(sq)` apart and whose radii sum to
/// `rr` overlap; coincident centres count as no contact.
pub open spec fn overlaps(sq: int, rr: int) -> bool {
    0 < sq < rr * rr
}

/// Fixed-point scale of a distance: distances carry 24 fractional bits.
pub open spec fn dist_scale() -> int {
    0x100_0000
}

/// The distance `sqrt(sq)` with 24 fractional bits, rounded down.
pub open spec fn scaled_dist(sq: int) -> int {
    root(sq * (dist_scale() * dist_scale()))
}

/// Component of the full separating correction along `ab`:
/// `ab_c * depth / d`, rounded down, where `d` is the distance and
/// `depth = rr - d`, both taken with 24 fractional bits.
pub open spec fn correction(ab_c: int, sq: int, rr: int) -> int {
    ab_c * (rr * dist_scale() - scaled_dist(sq)) / scaled_dist(sq)
}

/// The part of a correction (or impulse) `c` borne by body `b` when `a` has
/// mass `ma`: `c * ma / (ma + mb)`, rounded down. Body `a` bears the rest.
pub open spec fn share(c: int, ma: int, mb: int) -> int {
    c * ma / (ma + mb)
}

pub open spec fn sq_len(x: int, y: int) -> int {
    x * x + y * y
}

/// Two dynamic bodies overlap.
pub open spec fn pair_overlaps(a: ParticleBundle, b: ParticleBundle) -> bool {
    overlaps(
        sq_len(b.pos.0.x - a.pos.0.x, b.pos.0.y - a.pos.0.y),
        a.collider.radius + b.collider.radius,
    )
}

/// A dynamic body overlaps an obstacle.
pub open spec fn static_overlaps(p: ParticleBundle, s: StaticColliderBundle) -> bool {
    overlaps(
        sq_len(p.pos.0.x - s.pos.0.x, p.pos.0.y - s.pos.0.y),
        p.collider.radius + s.collider.radius,
    )
}

/// Projection of an overlapping dynamic pair apart, split by inverse mass.
/// The flag tells whether the pair was in contact.
pub open spec fn pos_pair(a: ParticleBundle, b: ParticleBundle) -> (ParticleBundle, ParticleBundle, bool) {
    let abx = b.pos.0.x - a.pos.0.x;
    let aby = b.pos.0.y - a.pos.0.y;
    let sq = sq_len(abx, aby);
    let rr = a.collider.radius + b.collider.radius;
    if overlaps(sq, rr) {
        let cx = correction(abx, sq, rr);
        let cy = correction(aby, sq, rr);
        let bx = share(cx, a.mass.0 as int, b.mass.0 as int);
        let by = share(cy, a.mass.0 as int, b.mass.0 as int);
        (
            with_pos(a, a.pos.0.x - (cx - bx), a.pos.0.y - (cy - by)),
            with_pos(b, b.pos.0.x + bx, b.pos.0.y + by),
            true,
        )
    } else {
        (a, b, false)
    }
}

/// Projection of a dynamic body out of a static one: the full correction,
/// along the direction from the obstacle to the body.
pub open spec fn static_pos_pair(p: ParticleBundle, s: StaticColliderBundle) -> (ParticleBundle, bool) {
    let abx = p.pos.0.x - s.pos.0.x;
    let aby = p.pos.0.y - s.pos.0.y;
    let sq = sq_len(abx, aby);
    let rr = p.collider.radius + s.collider.radius;
    if overlaps(sq, rr) {
        (
            with_pos(p, p.pos.0.x + correction(abx, sq, rr), p.pos.0.y + correction(aby, sq, rr)),
            true,
        )
    } else {
        (p, false)
    }
}

/// Twice the restitution scale: the denominator of a combined restitution.
pub open spec fn double_scale() -> int {
    2 * RESTITUTION_SCALE as int
}

/// Combined restitution of two bodies, as a numerator over
/// `double_scale()`: the sum `ea + eb` of the two thousandths, so that the
/// fraction it stands for is their arithmetic mean.
pub open spec fn combined_restitution(ea: int, eb: int) -> int {
    ea + eb
}

/// Component of an impulse along `ab` whose magnitude per unit normal is
/// `k / (double_scale() * |ab|)`, rounded down.
pub open spec fn impulse(ab_c: int, k: int, sq: int) -> int {
    ab_c * k / (double_scale() * sq)
}

/// Restitution response of a dynamic pair: drives the relative normal
/// velocity toward `-e` times the pre-solve one, split by inverse mass.
pub open spec fn vel_pair(a: ParticleBundle, b: ParticleBundle) -> (ParticleBundle, ParticleBundle) {
    let abx = b.pos.0.x - a.pos.0.x;
    let aby = b.pos.0.y - a.pos.0.y;
    let sq = sq_len(abx, aby);
    if sq == 0 {
        (a, b)
    } else {
        let dv = (a.vel.0.x - b.vel.0.x) * abx + (a.vel.0.y - b.vel.0.y) * aby;
        let dp = (a.pre_solve_vel.0.x - b.pre_solve_vel.0.x) * abx + (a.pre_solve_vel.0.y
            - b.pre_solve_vel.0.y) * aby;
        let e = combined_restitution(a.restitution.0 as int, b.restitution.0 as int);
        let k = -double_scale() * dv - e * dp;
        let jx = impulse(abx, k, sq);
        let jy = impulse(aby, k, sq);
        let bx = share(jx, a.mass.0 as int, b.mass.0 as int);
        let by = share(jy, a.mass.0 as int, b.mass.0 as int);
        (
            with_vel(a, a.vel.0.x + (jx - bx), a.vel.0.y + (jy - by)),
            with_vel(b, b.vel.0.x - bx, b.vel.0.y - by),
        )
    }
}

/// Restitution response of a dynamic body against a static one: the full
/// impulse goes to the dynamic body.
pub open spec fn static_vel_pair(p: ParticleBundle, s: StaticColliderBundle) -> ParticleBundle {
    let abx = p.pos.0.x - s.pos.0.x;
    let aby = p.pos.0.y - s.pos.0.y;
    let sq = sq_len(abx, aby);
    if sq == 0 {
        p
    } else {
        let dv = p.vel.0.x * abx + p.vel.0.y * aby;
        let dp = p.pre_solve_vel.0.x * abx + p.pre_solve_vel.0.y * aby;
        let e = combined_restitution(p.restitution.0 as int, s.restitution.0 as int);
        let k = double_scale() * dv + e * dp;
        with_vel(p, p.vel.0.x - impulse(abx, k, sq), p.vel.0.y - impulse(aby, k, sq))
    }
}

/// Bound on a coordinate difference (2^29).
pub open spec fn diff_bound() -> int {
    0x2000_0000
}

/// Bound on a correction component (2^82).
pub open spec fn corr_bound() -> int {
    diff_bound() * diff_bound() * 0x100_0000
}

/// Bound on an impulse component (2^106).
pub open spec fn imp_bound() -> int {
    0x400_0000_0000_0000_0000_0000_0000
}

/// Bound on a mass-weighted share of an impulse (2^122).
pub open spec fn share_bound() -> int {
    imp_bound() * 0x1_0000
}

fn share_exec(c: i128, ma: u16, mb: u16) -> (r: i128)
    requires
        -imp_bound() <= c <= imp_bound(),
        ma >= 1,
        mb >= 1,
    ensures
        r == share(c as int, ma as int, mb as int),
        -share_bound() <= r <= share_bound(),
{
    proof {
        lemma_mul_bound(c as int, ma as int, imp_bound(), 0x1_0000);
        lemma_div_bound(c as int * ma as int, ma as int + mb as int, share_bound());
    }
    floor_div(c * (ma as i128), ma as i128 + mb as i128)
}

fn correction_exec(ab_c: i128, sq: u64, rr: i128) -> (r: i128)
    requires
        -diff_bound() <= ab_c <= diff_bound(),
        0 < sq,
        0 <= rr <= diff_bound(),
        (sq as int) < rr * rr,
    ensures
        r == correction(ab_c as int, sq as int, rr as int),
        -corr_bound() <= r <= corr_bound(),
{
    let x: u128 = (sq as u128) * 0x1_0000_0000_0000;
    let du = isqrt(x);
    proof {
        lemma_mul_bound(rr as int, rr as int, diff_bound(), diff_bound());
        assert(du < 0x40_0000_0000_0000) by (nonlinear_arith)
            requires
                du * du <= x,
                x < 0x800_0000_0000_0000_0000_0000_0000,
        ;
    }
    let d = du as i128;
    proof {
        assert(x as int == sq as int * (dist_scale() * dist_scale()));
        assert(d >= 1) by (nonlinear_arith)
            requires
                0 < x,
                (x as int) < (d + 1) * (d + 1),
                d >= 0,
        ;
        assert(d < rr * 0x100_0000) by (nonlinear_arith)
            requires
                d * d <= x,
                x == sq * 0x1_0000_0000_0000,
                (sq as int) < rr * rr,
                d >= 0,
                rr >= 0,
        ;
        lemma_mul_bound(ab_c as int, rr * 0x100_0000 - d, diff_bound(), diff_bound() * 0x100_0000);
        lemma_div_bound(ab_c * (rr * 0x100_0000 - d), d as int, corr_bound());
    }
    floor_div(ab_c * (rr * 0x100_0000 - d), d)
}

/// Projects an overlapping dynamic pair apart.
pub fn solve_pair_pos(a: ParticleBundle, b: ParticleBundle) -> (r: (ParticleBundle, ParticleBundle, bool))
    requires
        a.well_formed(),
        b.well_formed(),
    ensures
        r == pos_pair(a, b),
        r.0.well_formed(),
        r.1.well_formed(),
{
    let abx: i128 = b.pos.0.x as i128 - a.pos.0.x as i128;
    let aby: i128 = b.pos.0.y as i128 - a.pos.0.y as i128;
    proof {
        lemma_mul_bound(abx as int, abx as int, diff_bound(), diff_bound());
        lemma_mul_bound(aby as int, aby as int, diff_bound(), diff_bound());
    }
    let sq: i128 = abx * abx + aby * aby;
    let rr: i128 = a.collider.radius as i128 + b.collider.radius as i128;
    proof {
        lemma_mul_bound(rr as int, rr as int, diff_bound(), diff_bound());
    }
    if 0 < sq && sq < rr * rr {
        let cx = correction_exec(abx, sq as u64, rr);
        let cy = correction_exec(aby, sq as u64, rr);
        let bx = share_exec(cx, a.mass.0, b.mass.0);
        let by = share_exec(cy, a.mass.0, b.mass.0);
        let na = ParticleBundle {
            pos: Pos(Vec2 { x: fit(a.pos.0.x as i128 - (cx - bx)), y: fit(a.pos.0.y as i128 - (cy - by)) }),
            ..a
        };
        let nb = ParticleBundle {
            pos: Pos(Vec2 { x: fit(b.pos.0.x as i128 + bx), y: fit(b.pos.0.y as i128 + by) }),
            ..b
        };
        (na, nb, true)
    } else {
        (a, b, false)
    }
}

/// Projects a dynamic body out of a static obstacle.
pub fn solve_static_pair_pos(p: ParticleBundle, s: &StaticColliderBundle) -> (r: (ParticleBundle, bool))
    requires
        p.well_formed(),
        s.well_formed(),
    ensures
        r == static_pos_pair(p, *s),
        r.0.well_formed(),
{
    let abx: i128 = p.pos.0.x as i128 - s.pos.0.x as i128;
    let aby: i128 = p.pos.0.y as i128 - s.pos.0.y as i128;
    proof {
        lemma_mul_bound(abx as int, abx as int, diff_bound(), diff_bound());
        lemma_mul_bound(aby as int, aby as int, diff_bound(), diff_bound());
    }
    let sq: i128 = abx * abx + aby * aby;
    let rr: i128 = p.collider.radius as i128 + s.collider.radius as i128;
    proof {
        lemma_mul_bound(rr as int, rr as int, diff_bound(), diff_bound());
    }
    if 0 < sq && sq < rr * rr {
        let cx = correction_exec(abx, sq as u64, rr);
        let cy = correction_exec(aby, sq as u64, rr);
        let np = ParticleBundle {
            pos: Pos(Vec2 { x: fit(p.pos.0.x as i128 + cx), y: fit(p.pos.0.y as i128 + cy) }),
            ..p
        };
        (np, true)
    } else {
        (p, false)
    }
}

/// Impulse component `ab_c * k / (double_scale() * sq)`.
fn impulse_exec(ab_c: i128, k: i128, sq: i128) -> (r: i128)
    requires
        -diff_bound() <= ab_c <= diff_bound(),
        -0x2000_0000_0000_0000_0000 <= k <= 0x2000_0000_0000_0000_0000,
        0 < sq <= 0x800_0000_0000_0000,
    ensures
        r == impulse(ab_c as int, k as int, sq as int),
        -imp_bound() <= r <= imp_bound(),
{
    proof {
        assert(RESTITUTION_SCALE == 1000);
        assert(double_scale() == 2000);
        lemma_mul_bound(ab_c as int, k as int, diff_bound(), 0x2000_0000_0000_0000_0000);
        lemma_div_bound(ab_c * k, double_scale() * sq, imp_bound());
    }
    floor_div(ab_c * k, 2 * (RESTITUTION_SCALE as i128) * sq)
}

/// Dot product of two vectors with components bounded by `diff_bound()`.
fn dot_exec(ux: i128, uy: i128, vx: i128, vy: i128) -> (r: i128)
    requires
        -diff_bound() <= ux <= diff_bound(),
        -diff_bound() <= uy <= diff_bound(),
        -diff_bound() <= vx <= diff_bound(),
        -diff_bound() <= vy <= diff_bound(),
    ensures
        r == ux * vx + uy * vy,
        -0x800_0000_0000_0000 <= r <= 0x800_0000_0000_0000,
{
    proof {
        lemma_mul_bound(ux as int, vx as int, diff_bound(), diff_bound());
        lemma_mul_bound(uy as int, vy as int, diff_bound(), diff_bound());
    }
    ux * vx + uy * vy
}

/// Squared length of a vector with components bounded by `diff_bound()`.
fn sq_exec(x: i128, y: i128) -> (r: i128)
    requires
        -diff_bound() <= x <= diff_bound(),
        -diff_bound() <= y <= diff_bound(),
    ensures
        r == sq_len(x as int, y as int),
        0 <= r <= 0x800_0000_0000_0000,
{
    proof {
        lemma_mul_bound(x as int, x as int, diff_bound(), diff_bound());
        lemma_mul_bound(y as int, y as int, diff_bound(), diff_bound());
        assert(x * x >= 0 && y * y >= 0) by (nonlinear_arith);
    }
    x * x + y * y
}

/// Restitution numerator term `s * dv + e * dp` for bounded dot products.
fn restitution_term(s: i128, dv: i128, e: i128, dp: i128) -> (r: i128)
    requires
        -0x800_0000_0000_0000 <= dv <= 0x800_0000_0000_0000,
        -0x800_0000_0000_0000 <= dp <= 0x800_0000_0000_0000,
        -2000 <= s <= 2000,
        -0x2_0000 <= e <= 0x2_0000,
    ensures
        r == s * dv + e * dp,
        -0x2000_0000_0000_0000_0000 <= r <= 0x2000_0000_0000_0000_0000,
{
    proof {
        lemma_mul_bound(s as int, dv as int, 2000, 0x800_0000_0000_0000);
        lemma_mul_bound(e as int, dp as int, 0x2_0000, 0x800_0000_0000_0000);
    }
    s * dv + e * dp
}

/// Applies the restitution response to a dynamic pair.
pub fn solve_pair_vel(a: ParticleBundle, b: ParticleBundle) -> (r: (ParticleBundle, ParticleBundle))
    requires
        a.well_formed(),
        b.well_formed(),
    ensures
        r == vel_pair(a, b),
        r.0.well_formed(),
        r.1.well_formed(),
{
    let abx: i128 = b.pos.0.x as i128 - a.pos.0.x as i128;
    let aby: i128 = b.pos.0.y as i128 - a.pos.0.y as i128;
    let sq = sq_exec(abx, aby);
    if sq == 0 {
        return (a, b);
    }
    let dv = dot_exec(
        a.vel.0.x as i128 - b.vel.0.x as i128,
        a.vel.0.y as i128 - b.vel.0.y as i128,
        abx,
        aby,
    );
    let dp = dot_exec(
        a.pre_solve_vel.0.x as i128 - b.pre_solve_vel.0.x as i128,
        a.pre_solve_vel.0.y as i128 - b.pre_solve_vel.0.y as i128,
        abx,
        aby,
    );
    let e: i128 = a.restitution.0 as i128 + b.restitution.0 as i128;
    proof {
        assert(RESTITUTION_SCALE == 1000);
    }
    let neg_scale: i128 = 0 - 2 * (RESTITUTION_SCALE as i128);
    let neg_e: i128 = 0 - e;
    let k = restitution_term(neg_scale, dv, neg_e, dp);
    proof {
        assert(k == -double_scale() * dv - e * dp) by (nonlinear_arith)
            requires
                k == (-2000) * dv + (-e) * dp,
                double_scale() == 2000,
        ;
    }
    let jx = impulse_exec(abx, k, sq);
    let jy = impulse_exec(aby, k, sq);
    let bx = share_exec(jx, a.mass.0, b.mass.0);
    let by = share_exec(jy, a.mass.0, b.mass.0);
    let na = ParticleBundle {
        vel: Vel(Vec2 { x: fit(a.vel.0.x as i128 + (jx - bx)), y: fit(a.vel.0.y as i128 + (jy - by)) }),
        ..a
    };
    let nb = ParticleBundle {
        vel: Vel(Vec2 { x: fit(b.vel.0.x as i128 - bx), y: fit(b.vel.0.y as i128 - by) }),
        ..b
    };
    (na, nb)
}

/// Applies the restitution response of a static obstacle to a dynamic body.
pub fn solve_static_pair_vel(p: ParticleBundle, s: &StaticColliderBundle) -> (r: ParticleBundle)
    requires
        p.well_formed(),
        s.well_formed(),
    ensures
        r == static_vel_pair(p, *s),
        r.well_formed(),
{
    let abx: i128 = p.pos.0.x as i128 - s.pos.0.x as i128;
    let aby: i128 = p.pos.0.y as i128 - s.pos.0.y as i128;
    let sq = sq_exec(abx, aby);
    if sq == 0 {
        return p;
    }
    let dv = dot_exec(p.vel.0.x as i128, p.vel.0.y as i128, abx, aby);
    let dp = dot_exec(p.pre_solve_vel.0.x as i128, p.pre_solve_vel.0.y as i128, abx, aby);
    let e: i128 = p.restitution.0 as i128 + s.restitution.0 as i128;
    proof {
        assert(RESTITUTION_SCALE == 1000);
    }
    let k = restitution_term(2 * (RESTITUTION_SCALE as i128), dv, e, dp);
    let jx = impulse_exec(abx, k, sq);
    let jy = impulse_exec(aby, k, sq);
    ParticleBundle {
        vel: Vel(Vec2 { x: fit(p.vel.0.x as i128 - jx), y: fit(p.vel.0.y as i128 - jy) }),
        ..p
    }
}

/// Overlap test of two dynamic bodies.
pub fn overlap_test(a: &ParticleBundle, b: &ParticleBundle) -> (r: bool)
    requires
        a.well_formed(),
        b.well_formed(),
    ensures
        r == pair_overlaps(*a, *b),
{
    let abx: i128 = b.pos.0.x as i128 - a.pos.0.x as i128;
    let aby: i128 = b.pos.0.y as i128 - a.pos.0.y as i128;
    let sq = sq_exec(abx, aby);
    let rr: i128 = a.collider.radius as i128 + b.collider.radius as i128;
    proof {
        lemma_mul_bound(rr as int, rr as int, diff_bound(), diff_bound());
    }
    0 < sq && sq < rr * rr
}

/// Overlap test of a dynamic body against an obstacle.
pub fn static_overlap_test(p: &ParticleBundle, s: &StaticColliderBundle) -> (r: bool)
    requires
        p.well_formed(),
        s.well_formed(),
    ensures
        r == static_overlaps(*p, *s),
{
    let abx: i128 = p.pos.0.x as i128 - s.pos.0.x as i128;
    let aby: i128 = p.pos.0.y as i128 - s.pos.0.y as i128;
    let sq = sq_exec(abx, aby);
    let rr: i128 = p.collider.radius as i128 + s.collider.radius as i128;
    proof {
        lemma_mul_bound(rr as int, rr as int, diff_bound(), diff_bound());
    }
    0 < sq && sq < rr * rr
}

} // verus!
