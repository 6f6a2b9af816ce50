//! Properties of the solver stated over its specification functions.
use vstd::prelude::*;
use vstd::arithmetic::div_mod::{
    lemma_fundamental_div_mod, lemma_fundamental_div_mod_converse, lemma_mod_bound,
};
use crate::component::{StaticColliderBundle, RESTITUTION_SCALE};
use crate::entity::ParticleBundle;
use crate::fixed::{is_root, lemma_root_unique, root, COORD_LIMIT};
use crate::pairs::{cross_from, cross_pairs, pairs_from, row, unique_pairs};
use crate::component::Vec2;
use crate::world::{
    integrate_all, integrate_body, step_result, update_all, velocity_from_position,
    found_pairs, found_static_pairs, pos_pass, static_pos_pass, static_vel_pass, vel_pass,
};
use crate::solver::{
    combined_restitution, double_scale, overlaps, pair_overlaps, pos_pair, sq_len, static_overlaps,
    static_pos_pair,
    static_vel_pair, vel_pair,
};

verus! {

/// Strictly inside the world range, so not saturated.
pub open spec fn unsaturated(v: int) -> bool {
    -(COORD_LIMIT as int) < v < COORD_LIMIT as int
}

/// Common positive factors cancel in a floor division.
pub proof fn lemma_cancel_div(f: int, k: int, d: int)
    requires
        f > 0,
        d > 0,
    ensures
        (f * k) / (d * f) == k / d,
{
    lemma_fundamental_div_mod(k, d);
    let q = k / d;
    let r = k % d;
    assert(f * k == q * (d * f) + r * f) by (nonlinear_arith)
        requires
            k == d * q + r,
    ;
    assert(0 <= r * f < d * f) by (nonlinear_arith)
        requires
            0 <= r < d,
            f > 0,
    ;
    lemma_fundamental_div_mod_converse(f * k, d * f, q, r * f);
}

/// Mass-weighted correction: when `b` is three times as heavy as `a`, the
/// correction that moves `a` is three times the one that moves `b`, up to
/// the rounding remainder of the total correction modulo four (zero when
/// it divides evenly), provided neither new position saturates.
pub proof fn lemma_mass_weighted_correction(a: ParticleBundle, b: ParticleBundle)
    requires
        a.well_formed(),
        b.well_formed(),
        b.mass.0 == 3 * a.mass.0,
        overlaps(
            sq_len(b.pos.0.x - a.pos.0.x, b.pos.0.y - a.pos.0.y),
            a.collider.radius + b.collider.radius,
        ),
        unsaturated(pos_pair(a, b).0.pos.0.x as int),
        unsaturated(pos_pair(a, b).0.pos.0.y as int),
        unsaturated(pos_pair(a, b).1.pos.0.x as int),
        unsaturated(pos_pair(a, b).1.pos.0.y as int),
    ensures
        ({
            let r = pos_pair(a, b);
            let (dax, day) = (a.pos.0.x - r.0.pos.0.x, a.pos.0.y - r.0.pos.0.y);
            let (dbx, dby) = (r.1.pos.0.x - b.pos.0.x, r.1.pos.0.y - b.pos.0.y);
            &&& 0 <= dax - 3 * dbx < 4
            &&& 0 <= day - 3 * dby < 4
            &&& (dax + dbx) % 4 == 0 ==> dax == 3 * dbx
            &&& (day + dby) % 4 == 0 ==> day == 3 * dby
        }),
{
    let abx = b.pos.0.x - a.pos.0.x;
    let aby = b.pos.0.y - a.pos.0.y;
    let sq = sq_len(abx, aby);
    let rr = a.collider.radius + b.collider.radius;
    let ma = a.mass.0 as int;
    let cx = crate::solver::correction(abx, sq, rr);
    let cy = crate::solver::correction(aby, sq, rr);
    lemma_cancel_div(ma, cx, 4);
    lemma_cancel_div(ma, cy, 4);
    assert(cx * ma == ma * cx) by (nonlinear_arith);
    assert(cy * ma == ma * cy) by (nonlinear_arith);
    assert(crate::solver::share(cx, ma, b.mass.0 as int) == cx / 4);
    assert(crate::solver::share(cy, ma, b.mass.0 as int) == cy / 4);
    lemma_fundamental_div_mod(cx, 4);
    lemma_fundamental_div_mod(cy, 4);
}

/// Restitution of a dynamic pair lined up along the x axis: unless a new
/// velocity saturates, the relative normal velocity afterwards is minus the
/// combined restitution (the mean of the two) times the pre-solve relative
/// normal velocity, rounded down; the tangential components are untouched.
pub proof fn lemma_pair_restitution(a: ParticleBundle, b: ParticleBundle)
    requires
        a.well_formed(),
        b.well_formed(),
        a.pos.0.y == b.pos.0.y,
        a.pos.0.x != b.pos.0.x,
        unsaturated(vel_pair(a, b).0.vel.0.x as int),
        unsaturated(vel_pair(a, b).1.vel.0.x as int),
    ensures
        vel_pair(a, b).0.vel.0.x - vel_pair(a, b).1.vel.0.x == (-combined_restitution(
            a.restitution.0 as int,
            b.restitution.0 as int,
        ) * (a.pre_solve_vel.0.x - b.pre_solve_vel.0.x)) / double_scale(),
        vel_pair(a, b).0.vel.0.y == a.vel.0.y,
        vel_pair(a, b).1.vel.0.y == b.vel.0.y,
{
    let abx = b.pos.0.x - a.pos.0.x;
    let relx = a.vel.0.x - b.vel.0.x;
    let rely = a.vel.0.y - b.vel.0.y;
    let prex = a.pre_solve_vel.0.x - b.pre_solve_vel.0.x;
    let prey = a.pre_solve_vel.0.y - b.pre_solve_vel.0.y;
    let e = combined_restitution(a.restitution.0 as int, b.restitution.0 as int);
    let sq = sq_len(abx, 0);
    let dv = relx * abx + rely * 0;
    let dp = prex * abx + prey * 0;
    let k = -double_scale() * dv - e * dp;
    let kk = -double_scale() * relx - e * prex;
    assert(RESTITUTION_SCALE == 1000);
    assert(abx * abx > 0) by (nonlinear_arith)
        requires
            abx != 0,
    ;
    assert(abx * k == (abx * abx) * kk) by (nonlinear_arith)
        requires
            k == -double_scale() * (relx * abx + rely * 0) - e * (prex * abx + prey * 0),
            kk == -double_scale() * relx - e * prex,
    ;
    lemma_cancel_div(abx * abx, kk, double_scale());
    assert(sq == abx * abx);
    let jx = crate::solver::impulse(abx, k, sq);
    assert(jx == kk / double_scale());
    assert(kk / double_scale() == -relx + (-e * prex) / double_scale()) by {
        lemma_fundamental_div_mod(-e * prex, double_scale());
        lemma_mod_bound(-e * prex, double_scale());
        assert(kk == (-relx + (-e * prex) / double_scale()) * double_scale() + (-e * prex)
            % double_scale()) by (nonlinear_arith)
            requires
                kk == -double_scale() * relx - e * prex,
                -e * prex == double_scale() * ((-e * prex) / double_scale()) + (-e * prex)
                    % double_scale(),
        ;
        lemma_fundamental_div_mod_converse(
            kk,
            double_scale(),
            -relx + (-e * prex) / double_scale(),
            (-e * prex) % double_scale(),
        );
    }
    assert(crate::solver::impulse(0, k, sq) == 0);
    assert(0 * (a.mass.0 as int) == 0);
    lemma_fundamental_div_mod_converse(0, a.mass.0 + b.mass.0, 0, 0);
    assert(crate::solver::share(0, a.mass.0 as int, b.mass.0 as int) == 0);
}

/// Restitution against a static obstacle straight above or below: unless
/// the new velocity saturates, the normal velocity afterwards is minus the
/// combined restitution (the mean of the two) times the pre-solve normal
/// velocity, rounded toward positive infinity; the tangential component is
/// untouched.
pub proof fn lemma_static_restitution(p: ParticleBundle, s: StaticColliderBundle)
    requires
        p.well_formed(),
        s.well_formed(),
        p.pos.0.x == s.pos.0.x,
        p.pos.0.y != s.pos.0.y,
        unsaturated(static_vel_pair(p, s).vel.0.y as int),
    ensures
        static_vel_pair(p, s).vel.0.y == -((combined_restitution(
            p.restitution.0 as int,
            s.restitution.0 as int,
        ) * p.pre_solve_vel.0.y) / double_scale()),
        static_vel_pair(p, s).vel.0.x == p.vel.0.x,
{
    let aby = p.pos.0.y - s.pos.0.y;
    let vx = p.vel.0.x as int;
    let vy = p.vel.0.y as int;
    let ux = p.pre_solve_vel.0.x as int;
    let uy = p.pre_solve_vel.0.y as int;
    let e = combined_restitution(p.restitution.0 as int, s.restitution.0 as int);
    let sq = sq_len(0, aby);
    let k = double_scale() * (vx * 0 + vy * aby) + e * (ux * 0 + uy * aby);
    let kk = double_scale() * vy + e * uy;
    assert(RESTITUTION_SCALE == 1000);
    assert(aby * aby > 0) by (nonlinear_arith)
        requires
            aby != 0,
    ;
    assert(aby * k == (aby * aby) * kk) by (nonlinear_arith)
        requires
            k == double_scale() * (vx * 0 + vy * aby) + e * (ux * 0 + uy * aby),
            kk == double_scale() * vy + e * uy,
    ;
    lemma_cancel_div(aby * aby, kk, double_scale());
    assert(sq == aby * aby);
    assert(crate::solver::impulse(aby, k, sq) == kk / double_scale());
    assert(kk / double_scale() == vy + (e * uy) / double_scale()) by {
        lemma_fundamental_div_mod(e * uy, double_scale());
        lemma_mod_bound(e * uy, double_scale());
        assert(kk == (vy + (e * uy) / double_scale()) * double_scale() + (e * uy)
            % double_scale()) by (nonlinear_arith)
            requires
                kk == double_scale() * vy + e * uy,
                e * uy == double_scale() * ((e * uy) / double_scale()) + (e * uy) % double_scale(),
        ;
        lemma_fundamental_div_mod_converse(
            kk,
            double_scale(),
            vy + (e * uy) / double_scale(),
            (e * uy) % double_scale(),
        );
    }
    assert(crate::solver::impulse(0, k, sq) == 0);
}

/// Inelastic pair: with both restitutions zero, a pair lined up along the
/// x axis leaves with equal normal velocities, unless one saturates.
pub proof fn lemma_inelastic_pair(a: ParticleBundle, b: ParticleBundle)
    requires
        a.well_formed(),
        b.well_formed(),
        a.pos.0.y == b.pos.0.y,
        a.pos.0.x != b.pos.0.x,
        a.restitution.0 == 0,
        b.restitution.0 == 0,
        unsaturated(vel_pair(a, b).0.vel.0.x as int),
        unsaturated(vel_pair(a, b).1.vel.0.x as int),
    ensures
        vel_pair(a, b).0.vel.0.x == vel_pair(a, b).1.vel.0.x,
{
    lemma_pair_restitution(a, b);
    let prex = a.pre_solve_vel.0.x - b.pre_solve_vel.0.x;
    assert(-0 * prex == 0) by (nonlinear_arith);
    assert(RESTITUTION_SCALE == 1000);
    lemma_fundamental_div_mod_converse(0, double_scale(), 0, 0);
}

/// Elastic head-on pair: two bodies of equal mass and restitution one,
/// lined up along the x axis and moving along it with opposite velocities
/// that the position stage left unchanged, exchange their velocities.
pub proof fn lemma_elastic_swap(a: ParticleBundle, b: ParticleBundle)
    requires
        a.well_formed(),
        b.well_formed(),
        a.pos.0.y == b.pos.0.y,
        a.pos.0.x != b.pos.0.x,
        a.mass.0 == b.mass.0,
        a.restitution.0 == RESTITUTION_SCALE,
        b.restitution.0 == RESTITUTION_SCALE,
        a.vel.0 == a.pre_solve_vel.0,
        b.vel.0 == b.pre_solve_vel.0,
        a.vel.0.x == -b.vel.0.x,
        a.vel.0.y == 0,
        b.vel.0.y == 0,
    ensures
        vel_pair(a, b).0.vel.0 == b.vel.0,
        vel_pair(a, b).1.vel.0 == a.vel.0,
{
    let abx = b.pos.0.x - a.pos.0.x;
    let v = a.vel.0.x as int;
    let m = a.mass.0 as int;
    let sq = sq_len(abx, 0);
    let dv = (2 * v) * abx + 0 * 0;
    let e = combined_restitution(a.restitution.0 as int, b.restitution.0 as int);
    let k = -double_scale() * dv - e * dv;
    assert(RESTITUTION_SCALE == 1000);
    assert(e == 2000);
    assert(abx * abx > 0) by (nonlinear_arith)
        requires
            abx != 0,
    ;
    assert(abx * k == (abx * abx) * (-8000 * v)) by (nonlinear_arith)
        requires
            k == -2000 * dv - 2000 * dv,
            dv == (2 * v) * abx + 0 * 0,
    ;
    lemma_cancel_div(abx * abx, -8000 * v, 2000);
    lemma_fundamental_div_mod_converse(-8000 * v, 2000, -4 * v, 0);
    assert(crate::solver::impulse(abx, k, sq) == -4 * v);
    assert(crate::solver::impulse(0, k, sq) == 0);
    assert((-4 * v) * m == m * (-4 * v)) by (nonlinear_arith);
    lemma_cancel_div(m, -4 * v, 2);
    lemma_fundamental_div_mod_converse(-4 * v, 2, -2 * v, 0);
    assert(crate::solver::share(-4 * v, m, m) == -2 * v);
    assert(0 * m == 0);
    lemma_fundamental_div_mod_converse(0, m + m, 0, 0);
    assert(crate::solver::share(0, m, m) == 0);
}

proof fn lemma_row_members(i: int, j: int, n: int)
    requires
        0 <= i <= usize::MAX,
        0 <= j,
        n <= usize::MAX + 1,
    ensures
        forall|k: int|
            0 <= k < row(i, j, n).len() ==> #[trigger] row(i, j, n)[k] == (i as usize, (j
                + k) as usize) && j + k < n,
    decreases n - j,
{
    if j < n {
        lemma_row_members(i, j + 1, n);
        let r = row(i, j, n);
        let t = row(i, j + 1, n);
        assert(r == seq![(i as usize, j as usize)] + t);
        assert forall|k: int| 0 <= k < r.len() implies #[trigger] r[k] == (i as usize, (j
            + k) as usize) && j + k < n by {
            if k > 0 {
                assert(r[k] == t[k - 1]);
                assert(t[k - 1] == (i as usize, (j + 1 + (k - 1)) as usize));
                assert(j + 1 + (k - 1) == j + k);
            } else {
                assert(r[0] == (i as usize, j as usize));
            }
        }
    }
}

proof fn lemma_pairs_from_members(i0: int, n: int)
    requires
        0 <= i0,
        n <= usize::MAX + 1,
    ensures
        forall|k: int|
            0 <= k < pairs_from(i0, n).len() ==> {
                let p = #[trigger] pairs_from(i0, n)[k];
                i0 <= p.0 < p.1 < n
            },
    decreases n - i0,
{
    if i0 < n {
        lemma_pairs_from_members(i0 + 1, n);
        lemma_row_members(i0, i0 + 1, n);
        let r = row(i0, i0 + 1, n);
        let t = pairs_from(i0 + 1, n);
        assert forall|k: int| 0 <= k < pairs_from(i0, n).len() implies {
            let p = #[trigger] pairs_from(i0, n)[k];
            i0 <= p.0 < p.1 < n
        } by {
            if k < r.len() {
                assert(pairs_from(i0, n)[k] == r[k]);
            } else {
                assert(pairs_from(i0, n)[k] == t[k - r.len()]);
            }
        }
    }
}

proof fn lemma_cross_from_members(i0: int, n: int, m: int)
    requires
        0 <= i0,
        n <= usize::MAX + 1,
        m <= usize::MAX + 1,
    ensures
        forall|k: int|
            0 <= k < cross_from(i0, n, m).len() ==> {
                let p = #[trigger] cross_from(i0, n, m)[k];
                i0 <= p.0 < n && p.1 < m
            },
    decreases n - i0,
{
    if i0 < n {
        lemma_cross_from_members(i0 + 1, n, m);
        lemma_row_members(i0, 0, m);
        let r = row(i0, 0, m);
        let t = cross_from(i0 + 1, n, m);
        assert forall|k: int| 0 <= k < cross_from(i0, n, m).len() implies {
            let p = #[trigger] cross_from(i0, n, m)[k];
            i0 <= p.0 < n && p.1 < m
        } by {
            if k < r.len() {
                assert(cross_from(i0, n, m)[k] == r[k]);
            } else {
                assert(cross_from(i0, n, m)[k] == t[k - r.len()]);
            }
        }
    }
}

proof fn lemma_found_pairs_empty(s: Seq<ParticleBundle>, pairs: Seq<(usize, usize)>)
    requires
        forall|k: int|
            0 <= k < pairs.len() ==> {
                let p = #[trigger] pairs[k];
                !pair_overlaps(s[p.0 as int], s[p.1 as int])
            },
    ensures
        found_pairs(s, pairs) == Seq::<(usize, usize)>::empty(),
    decreases pairs.len(),
{
    if pairs.len() > 0 {
        lemma_found_pairs_empty(s, pairs.drop_last());
        assert(pairs[pairs.len() - 1] == pairs.last());
    }
}

proof fn lemma_found_static_pairs_empty(
    s: Seq<ParticleBundle>,
    statics: Seq<StaticColliderBundle>,
    pairs: Seq<(usize, usize)>,
)
    requires
        forall|k: int|
            0 <= k < pairs.len() ==> {
                let p = #[trigger] pairs[k];
                !static_overlaps(s[p.0 as int], statics[p.1 as int])
            },
    ensures
        found_static_pairs(s, statics, pairs) == Seq::<(usize, usize)>::empty(),
    decreases pairs.len(),
{
    if pairs.len() > 0 {
        lemma_found_static_pairs_empty(s, statics, pairs.drop_last());
        assert(pairs[pairs.len() - 1] == pairs.last());
    }
}

/// The solver stages are a no-op absent contacts: when no two dynamic
/// bodies overlap and no dynamic body overlaps an obstacle, both contact
/// finders return empty lists, and the position and restitution passes
/// over those empty lists leave every body as it is.
pub proof fn lemma_no_overlap_noop(s: Seq<ParticleBundle>, statics: Seq<StaticColliderBundle>)
    requires
        s.len() <= usize::MAX,
        statics.len() <= usize::MAX,
        forall|i: int, j: int| 0 <= i < j < s.len() ==> !pair_overlaps(#[trigger] s[i], #[trigger] s[j]),
        forall|i: int, k: int|
            0 <= i < s.len() && 0 <= k < statics.len() ==> !static_overlaps(
                #[trigger] s[i],
                #[trigger] statics[k],
            ),
    ensures
        found_pairs(s, unique_pairs(s.len() as int)) == Seq::<(usize, usize)>::empty(),
        found_static_pairs(s, statics, cross_pairs(s.len() as int, statics.len() as int))
            == Seq::<(usize, usize)>::empty(),
        pos_pass(s, Seq::empty()) == s,
        static_pos_pass(s, statics, Seq::empty()) == s,
        vel_pass(s, Seq::empty()) == s,
        static_vel_pass(s, statics, Seq::empty()) == s,
{
    let n = s.len() as int;
    let m = statics.len() as int;
    lemma_pairs_from_members(0, n);
    lemma_cross_from_members(0, n, m);
    let up = unique_pairs(n);
    assert forall|k: int| 0 <= k < up.len() implies {
        let p = #[trigger] up[k];
        p.0 < p.1 < s.len() && !pair_overlaps(s[p.0 as int], s[p.1 as int])
    } by {
        let p = up[k];
        assert(!pair_overlaps(s[p.0 as int], s[p.1 as int]));
    }
    lemma_found_pairs_empty(s, up);
    let cp = cross_pairs(n, m);
    assert forall|k: int| 0 <= k < cp.len() implies {
        let p = #[trigger] cp[k];
        p.0 < s.len() && p.1 < statics.len() && !static_overlaps(s[p.0 as int], statics[p.1 as int])
    } by {
        let p = cp[k];
        assert(!static_overlaps(s[p.0 as int], statics[p.1 as int]));
    }
    lemma_found_static_pairs_empty(s, statics, cp);
}

/// Along an axis the correction is exact: the full penetration depth,
/// signed like the offset.
proof fn lemma_axis_correction(ab: int, rr: int)
    requires
        ab != 0,
    ensures
        ab > 0 ==> crate::solver::correction(ab, ab * ab, rr) == rr - ab,
        ab < 0 ==> crate::solver::correction(ab, ab * ab, rr) == -(rr + ab),
        crate::solver::correction(0, ab * ab, rr) == 0,
{
    let sq = ab * ab;
    let x = sq * (0x100_0000 * 0x100_0000);
    let a = if ab >= 0 {
        ab
    } else {
        -ab
    };
    let d = a * 0x100_0000;
    assert(x == d * d) by (nonlinear_arith)
        requires
            x == ab * ab * (0x100_0000 * 0x100_0000),
            d == a * 0x100_0000,
            a == ab || a == -ab,
    ;
    assert(is_root(x, d)) by (nonlinear_arith)
        requires
            x == d * d,
            d >= 0,
    ;
    lemma_root_unique(x, root(x), d);
    assert(d > 0) by (nonlinear_arith)
        requires
            d == a * 0x100_0000,
            a > 0,
    ;
    if ab > 0 {
        assert(ab * (rr * 0x100_0000 - d) == d * (rr - ab)) by (nonlinear_arith)
            requires
                d == ab * 0x100_0000,
        ;
        lemma_cancel_div(d, rr - ab, 1);
        assert(1 * d == d);
    } else {
        assert(ab * (rr * 0x100_0000 - d) == d * (-(rr - a))) by (nonlinear_arith)
            requires
                a == -ab,
                d == a * 0x100_0000,
        ;
        lemma_cancel_div(d, -(rr - a), 1);
        assert(1 * d == d);
    }
    assert(0 * (rr * 0x100_0000 - d) == 0);
    lemma_fundamental_div_mod_converse(0, d, 0, 0);
}

/// Projection out of an obstacle straight below or above: an overlapping
/// body ends exactly touching it, on the side it came from, with no
/// penetration left, unless its new position saturates.
pub proof fn lemma_static_projection_touches(p: ParticleBundle, s: StaticColliderBundle)
    requires
        p.well_formed(),
        s.well_formed(),
        p.pos.0.x == s.pos.0.x,
        static_overlaps(p, s),
        unsaturated(static_pos_pair(p, s).0.pos.0.y as int),
    ensures
        static_pos_pair(p, s).1,
        static_pos_pair(p, s).0.pos.0.x == p.pos.0.x,
        p.pos.0.y > s.pos.0.y ==> static_pos_pair(p, s).0.pos.0.y - s.pos.0.y == p.collider.radius
            + s.collider.radius,
        p.pos.0.y < s.pos.0.y ==> s.pos.0.y - static_pos_pair(p, s).0.pos.0.y == p.collider.radius
            + s.collider.radius,
{
    let aby = p.pos.0.y - s.pos.0.y;
    assert(sq_len(0, aby) == aby * aby);
    lemma_axis_correction(aby, p.collider.radius + s.collider.radius);
}

/// Projection of a dynamic pair lined up along the x axis, whatever their
/// masses: the two bodies end exactly touching, in their former order,
/// with no penetration left, unless a new position saturates.
pub proof fn lemma_pair_projection_touches(a: ParticleBundle, b: ParticleBundle)
    requires
        a.well_formed(),
        b.well_formed(),
        a.pos.0.y == b.pos.0.y,
        pair_overlaps(a, b),
        unsaturated(pos_pair(a, b).0.pos.0.x as int),
        unsaturated(pos_pair(a, b).1.pos.0.x as int),
    ensures
        pos_pair(a, b).2,
        pos_pair(a, b).0.pos.0.y == a.pos.0.y,
        pos_pair(a, b).1.pos.0.y == b.pos.0.y,
        b.pos.0.x > a.pos.0.x ==> pos_pair(a, b).1.pos.0.x - pos_pair(a, b).0.pos.0.x
            == a.collider.radius + b.collider.radius,
        b.pos.0.x < a.pos.0.x ==> pos_pair(a, b).0.pos.0.x - pos_pair(a, b).1.pos.0.x
            == a.collider.radius + b.collider.radius,
{
    let abx = b.pos.0.x - a.pos.0.x;
    assert(sq_len(abx, 0) == abx * abx);
    lemma_axis_correction(abx, a.collider.radius + b.collider.radius);
    assert(0 * (a.mass.0 as int) == 0);
    lemma_fundamental_div_mod_converse(0, a.mass.0 + b.mass.0, 0, 0);
    assert(crate::solver::share(0, a.mass.0 as int, b.mass.0 as int) == 0);
}

/// Contact finder: a pair is listed if and only if it is a candidate and
/// its bodies overlap at the positions on entry; the list keeps the
/// candidates' order, so each pair is listed at most as often as it is a
/// candidate.
pub proof fn lemma_found_pairs_members(s: Seq<ParticleBundle>, pairs: Seq<(usize, usize)>)
    ensures
        forall|p: (usize, usize)|
            #[trigger] found_pairs(s, pairs).contains(p) <==> pairs.contains(p) && pair_overlaps(
                s[p.0 as int],
                s[p.1 as int],
            ),
    decreases pairs.len(),
{
    if pairs.len() > 0 {
        let prev = pairs.drop_last();
        lemma_found_pairs_members(s, prev);
        let q = pairs.last();
        assert(pairs =~= prev.push(q));
        assert forall|p: (usize, usize)| #[trigger]
            found_pairs(s, pairs).contains(p) <==> pairs.contains(p) && pair_overlaps(
                s[p.0 as int],
                s[p.1 as int],
            ) by {
            if pairs.contains(p) && !prev.contains(p) {
                let k = choose|k: int| 0 <= k < pairs.len() && pairs[k] == p;
                if k < prev.len() {
                    assert(prev[k] == p);
                }
                assert(p == q);
            }
            if prev.contains(p) {
                let k = choose|k: int| 0 <= k < prev.len() && prev[k] == p;
                assert(pairs[k] == p);
            }
            if found_pairs(s, prev).contains(p) {
                let k = choose|k: int|
                    0 <= k < found_pairs(s, prev).len() && found_pairs(s, prev)[k] == p;
                if pair_overlaps(s[q.0 as int], s[q.1 as int]) {
                    assert(found_pairs(s, pairs)[k] == p);
                }
            }
            if pair_overlaps(s[q.0 as int], s[q.1 as int]) {
                let f = found_pairs(s, pairs);
                assert(f[f.len() - 1] == q);
                if f.contains(p) && p != q {
                    let k = choose|k: int| 0 <= k < f.len() && f[k] == p;
                    assert(found_pairs(s, prev)[k] == p);
                }
            }
            assert(pairs[pairs.len() - 1] == q);
        }
    }
}

proof fn lemma_split_remainder(j: int, ma: int, mb: int)
    requires
        ma >= 1,
        mb >= 1,
    ensures
        0 <= ma * (j - crate::solver::share(j, ma, mb)) - mb * crate::solver::share(j, ma, mb)
            < ma + mb,
{
    let q = crate::solver::share(j, ma, mb);
    lemma_fundamental_div_mod(j * ma, ma + mb);
    lemma_mod_bound(j * ma, ma + mb);
    let r = (j * ma) % (ma + mb);
    assert(ma * (j - q) - mb * q == r) by (nonlinear_arith)
        requires
            j * ma == (ma + mb) * q + r,
    ;
}

/// Momentum of a restitution response, in any direction and for any
/// masses and restitutions: unless a new velocity saturates, the change of
/// `mass * velocity` summed over the pair is, per component, the rounding
/// remainder of the mass split: at least zero and less than the total mass
/// (one length unit per tick of total mass).
pub proof fn lemma_pair_momentum(a: ParticleBundle, b: ParticleBundle)
    requires
        a.well_formed(),
        b.well_formed(),
        unsaturated(vel_pair(a, b).0.vel.0.x as int),
        unsaturated(vel_pair(a, b).0.vel.0.y as int),
        unsaturated(vel_pair(a, b).1.vel.0.x as int),
        unsaturated(vel_pair(a, b).1.vel.0.y as int),
    ensures
        ({
            let r = vel_pair(a, b);
            let ma = a.mass.0 as int;
            let mb = b.mass.0 as int;
            &&& 0 <= ma * (r.0.vel.0.x - a.vel.0.x) + mb * (r.1.vel.0.x - b.vel.0.x) < ma + mb
            &&& 0 <= ma * (r.0.vel.0.y - a.vel.0.y) + mb * (r.1.vel.0.y - b.vel.0.y) < ma + mb
        }),
{
    let abx = b.pos.0.x - a.pos.0.x;
    let aby = b.pos.0.y - a.pos.0.y;
    let sq = sq_len(abx, aby);
    if sq != 0 {
        let dv = (a.vel.0.x - b.vel.0.x) * abx + (a.vel.0.y - b.vel.0.y) * aby;
        let dp = (a.pre_solve_vel.0.x - b.pre_solve_vel.0.x) * abx + (a.pre_solve_vel.0.y
            - b.pre_solve_vel.0.y) * aby;
        let e = combined_restitution(a.restitution.0 as int, b.restitution.0 as int);
        let k = -double_scale() * dv - e * dp;
        let ma = a.mass.0 as int;
        let mb = b.mass.0 as int;
        let r = vel_pair(a, b);
        let jx = crate::solver::impulse(abx, k, sq);
        let jy = crate::solver::impulse(aby, k, sq);
        let qx = crate::solver::share(jx, ma, mb);
        let qy = crate::solver::share(jy, ma, mb);
        lemma_split_remainder(jx, ma, mb);
        lemma_split_remainder(jy, ma, mb);
        assert(r.0.vel.0.x - a.vel.0.x == jx - qx);
        assert(r.1.vel.0.x - b.vel.0.x == -qx);
        assert(r.0.vel.0.y - a.vel.0.y == jy - qy);
        assert(r.1.vel.0.y - b.vel.0.y == -qy);
        assert(mb * (-qx) == -(mb * qx)) by (nonlinear_arith);
        assert(mb * (-qy) == -(mb * qy)) by (nonlinear_arith);
    } else {
        assert(a.mass.0 * 0 == 0 && b.mass.0 * 0 == 0) by (nonlinear_arith);
    }
}

/// A tick in which no solver stage moves a body leaves its velocity as the
/// integrator made it: re-deriving velocity from the displacement gives
/// back the pre-solve velocity, unless the new position saturates.
pub proof fn lemma_quiet_tick_velocity(b: ParticleBundle, g: Vec2)
    requires
        b.well_formed(),
        g.in_range(),
        unsaturated(integrate_body(b, g).pos.0.x as int),
        unsaturated(integrate_body(b, g).pos.0.y as int),
    ensures
        velocity_from_position(integrate_body(b, g)).vel.0 == integrate_body(
            b,
            g,
        ).pre_solve_vel.0,
{
}

/// A tick in which nothing overlaps after integration: both contact lists
/// come out empty, every body ends as integration and the
/// velocity-from-position update leave it, and, unless its new position
/// saturates, its velocity is the one the integrator gave it.
pub proof fn lemma_quiet_tick(s: Seq<ParticleBundle>, statics: Seq<StaticColliderBundle>, g: Vec2)
    requires
        s.len() <= usize::MAX,
        statics.len() <= usize::MAX,
        g.in_range(),
        forall|i: int, j: int|
            0 <= i < j < s.len() ==> !pair_overlaps(
                #[trigger] integrate_all(s, g)[i],
                #[trigger] integrate_all(s, g)[j],
            ),
        forall|i: int, k: int|
            0 <= i < s.len() && 0 <= k < statics.len() ==> !static_overlaps(
                #[trigger] integrate_all(s, g)[i],
                #[trigger] statics[k],
            ),
    ensures
        step_result(s, statics, g).1 == Seq::<(usize, usize)>::empty(),
        step_result(s, statics, g).2 == Seq::<(usize, usize)>::empty(),
        step_result(s, statics, g).0 == update_all(integrate_all(s, g)),
        forall|i: int|
            0 <= i < s.len() && (#[trigger] s[i]).well_formed() && unsaturated(
                integrate_body(s[i], g).pos.0.x as int,
            ) && unsaturated(integrate_body(s[i], g).pos.0.y as int) ==> step_result(
                s,
                statics,
                g,
            ).0[i].vel.0 == integrate_body(s[i], g).pre_solve_vel.0,
{
    let s1 = integrate_all(s, g);
    lemma_no_overlap_noop(s1, statics);
    let s4 = update_all(s1);
    assert(vel_pass(s4, Seq::empty()) == s4);
    assert(static_vel_pass(s4, statics, Seq::empty()) == s4);
    assert forall|i: int|
        0 <= i < s.len() && (#[trigger] s[i]).well_formed() && unsaturated(
            integrate_body(s[i], g).pos.0.x as int,
        ) && unsaturated(integrate_body(s[i], g).pos.0.y as int) implies step_result(
        s,
        statics,
        g,
    ).0[i].vel.0 == integrate_body(s[i], g).pre_solve_vel.0 by {
        assert(s4[i] == velocity_from_position(integrate_body(s[i], g)));
        lemma_quiet_tick_velocity(s[i], g);
    }
}

/// An isolated pair: in a world of two overlapping dynamic bodies the
/// contact finder lists exactly that pair, the position pass is one
/// `pos_pair` projection and the restitution pass over that list is one
/// `vel_pair` response, so the pair laws above hold of `solve_pos` and
/// `solve_vel` themselves.
pub proof fn lemma_isolated_pair(s: Seq<ParticleBundle>)
    requires
        s.len() == 2,
        pair_overlaps(s[0], s[1]),
    ensures
        found_pairs(s, unique_pairs(2)) == seq![(0usize, 1usize)],
        pos_pass(s, seq![(0usize, 1usize)]) == seq![
            pos_pair(s[0], s[1]).0,
            pos_pair(s[0], s[1]).1,
        ],
        vel_pass(s, seq![(0usize, 1usize)]) == seq![
            vel_pair(s[0], s[1]).0,
            vel_pair(s[0], s[1]).1,
        ],
{
    let one = seq![(0usize, 1usize)];
    assert(row(0, 2, 2) =~= Seq::<(usize, usize)>::empty());
    assert(row(0, 1, 2) =~= one);
    assert(row(1, 2, 2) =~= Seq::<(usize, usize)>::empty());
    assert(pairs_from(2, 2) =~= Seq::<(usize, usize)>::empty());
    assert(pairs_from(1, 2) =~= Seq::<(usize, usize)>::empty());
    assert(pairs_from(0, 2) =~= one);
    assert(one.drop_last() =~= Seq::<(usize, usize)>::empty());
    assert(one.last() == (0usize, 1usize));
    assert(found_pairs(s, one.drop_last()) == Seq::<(usize, usize)>::empty());
    assert(Seq::<(usize, usize)>::empty().push((0usize, 1usize)) =~= one);
    assert(found_pairs(s, one) == one);
    assert(pos_pass(s, one.drop_last()) == s);
    assert(vel_pass(s, one.drop_last()) == s);
    let r = pos_pair(s[0], s[1]);
    assert(s.update(0, r.0).update(1, r.1) =~= seq![r.0, r.1]);
    let v = vel_pair(s[0], s[1]);
    assert(s.update(0, v.0).update(1, v.1) =~= seq![v.0, v.1]);
}

} // verus!
