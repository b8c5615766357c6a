//! Proved laws of the engine.
//!
//! Each public proof function here states one property of the tick
//! pipeline, over the same spec functions that the executable functions'
//! contracts use.

use vstd::prelude::*;
use vstd::seq_lib::{commutative_foldl, lemma_fold_left_permutation, group_to_multiset_ensures};
use vstd::arithmetic::div_mod::lemma_div_by_multiple;
use crate::fixp::{
    abs_i, tdiv, sat_add_s, sat_sub_s, scale_s, lemma_tdiv_bounds, lemma_tdiv_mag_ordered,
    lemma_isqrt_bounds, lemma_isqrt_monotone,
};
use crate::sim::{
    Boid, Parameters, FlockSums, Simulation, empty_sums, dx_of, dy_of, is_close, is_neighbor, sums_step,
    sums_upto, flock_sums, vel_after_separation, vel_after_turn, clamped_vel, speed_of, step_boid,
    tick_spec, positions_of,
};

verus! {

/// A position or velocity component small enough that no sum taken during
/// a neighbor scan over a bounded flock can saturate.
pub const COORD_BOUND: i64 = 0x2000_0000_0000;

/// A flock size small enough that no sum taken during a neighbor scan
/// over agents within `COORD_BOUND` can saturate.
pub const MAX_FLOCK: usize = 0x10000;

/// Every component of `b` lies within `COORD_BOUND`.
pub open spec fn boid_bounded(b: Boid) -> bool {
    &&& abs_i(b.x as int) <= COORD_BOUND as int
    &&& abs_i(b.y as int) <= COORD_BOUND as int
    &&& abs_i(b.vx as int) <= COORD_BOUND as int
    &&& abs_i(b.vy as int) <= COORD_BOUND as int
}

/// A flock of at most `MAX_FLOCK` agents, each within `COORD_BOUND`.
pub open spec fn flock_bounded(s: Seq<Boid>) -> bool {
    &&& s.len() <= MAX_FLOCK as int
    &&& forall|i: int| 0 <= i < s.len() ==> boid_bounded(#[trigger] s[i])
}

/// One neighbor-scan fold step over exact (unsaturated) sums.
pub open spec fn sums_step_u(a: FlockSums, b: Boid, o: Boid, p: Parameters) -> FlockSums {
    if is_close(b, o, p) {
        FlockSums { close_dx: a.close_dx + dx_of(b, o), close_dy: a.close_dy + dy_of(b, o), ..a }
    } else if is_neighbor(b, o, p) {
        FlockSums {
            xpos_sum: a.xpos_sum + o.x as int,
            ypos_sum: a.ypos_sum + o.y as int,
            xvel_sum: a.xvel_sum + o.vx as int,
            yvel_sum: a.yvel_sum + o.vy as int,
            neighbors: a.neighbors + 1,
            ..a
        }
    } else {
        a
    }
}

/// The exact fold step, as a fold operator for a fixed agent `b`.
pub open spec fn sums_fn_u(b: Boid, p: Parameters) -> spec_fn(FlockSums, Boid) -> FlockSums {
    |a: FlockSums, o: Boid| sums_step_u(a, b, o, p)
}

/// `b`'s exact accumulators over the first `k` agents of `s`.
pub open spec fn sums_upto_u(b: Boid, s: Seq<Boid>, p: Parameters, k: int) -> FlockSums
    decreases k,
{
    if k <= 0 {
        empty_sums()
    } else {
        sums_step_u(sums_upto_u(b, s, p, k - 1), b, s[k - 1], p)
    }
}

/// The exact fold step is commutative: folding two other agents in either
/// order gives the same accumulators.
proof fn lemma_sums_fn_u_commutes(b: Boid, p: Parameters)
    ensures
        commutative_foldl(sums_fn_u(b, p)),
{
    let f = sums_fn_u(b, p);
    assert forall|x: Boid, y: Boid, v: FlockSums| #[trigger] f(f(v, x), y) == f(f(v, y), x) by {
        assert(f(f(v, x), y) == sums_step_u(sums_step_u(v, b, x, p), b, y, p));
        assert(f(f(v, y), x) == sums_step_u(sums_step_u(v, b, y, p), b, x, p));
    }
}

/// The recursive exact accumulators are the left fold of the exact step.
proof fn lemma_sums_upto_u_is_fold(b: Boid, s: Seq<Boid>, p: Parameters, k: int)
    requires
        0 <= k <= s.len(),
    ensures
        sums_upto_u(b, s, p, k) == s.subrange(0, k).fold_left(empty_sums(), sums_fn_u(b, p)),
    decreases k,
{
    let f = sums_fn_u(b, p);
    if k == 0 {
        assert(s.subrange(0, 0).len() == 0);
    } else {
        lemma_sums_upto_u_is_fold(b, s, p, k - 1);
        let t = s.subrange(0, k);
        assert(t.drop_last() =~= s.subrange(0, k - 1));
        assert(t.last() == s[k - 1]);
        assert(t.fold_left(empty_sums(), f) == f(t.drop_last().fold_left(empty_sums(), f), t.last()));
        assert(f(sums_upto_u(b, s, p, k - 1), s[k - 1]) == sums_step_u(
            sums_upto_u(b, s, p, k - 1),
            b,
            s[k - 1],
            p,
        ));
    }
}

/// Over a bounded flock and a bounded agent no accumulator can saturate,
/// so the saturating scan computes the exact sums, and those sums stay
/// small.
proof fn lemma_sums_bounded(b: Boid, s: Seq<Boid>, p: Parameters, k: int)
    requires
        boid_bounded(b),
        flock_bounded(s),
        0 <= k <= s.len(),
    ensures
        sums_upto(b, s, p, k) == sums_upto_u(b, s, p, k),
        abs_i(sums_upto_u(b, s, p, k).close_dx) <= k * (2 * COORD_BOUND as int),
        abs_i(sums_upto_u(b, s, p, k).close_dy) <= k * (2 * COORD_BOUND as int),
        abs_i(sums_upto_u(b, s, p, k).xpos_sum) <= k * (COORD_BOUND as int),
        abs_i(sums_upto_u(b, s, p, k).ypos_sum) <= k * (COORD_BOUND as int),
        abs_i(sums_upto_u(b, s, p, k).xvel_sum) <= k * (COORD_BOUND as int),
        abs_i(sums_upto_u(b, s, p, k).yvel_sum) <= k * (COORD_BOUND as int),
        0 <= sums_upto_u(b, s, p, k).neighbors <= k,
    decreases k,
{
    if k > 0 {
        lemma_sums_bounded(b, s, p, k - 1);
    }
}

/// THE FROZEN-SNAPSHOT LAW.  Reordering the agents of a (bounded) flock,
/// while keeping every agent's own state, changes no agent's tick result:
/// each agent's post-tick state depends only on its own state and on the
/// multiset of agent states in the snapshot, never on their order.
pub proof fn lemma_tick_order_independent(s1: Seq<Boid>, s2: Seq<Boid>, p: Parameters)
    requires
        flock_bounded(s1),
        s1.to_multiset() == s2.to_multiset(),
    ensures
        s2.len() == s1.len(),
        flock_bounded(s2),
        forall|b: Boid| boid_bounded(b) ==> step_boid(b, s1, p) == #[trigger] step_boid(b, s2, p),
        forall|j: int| 0 <= j < s2.len() ==> #[trigger] tick_spec(s2, p)[j] == step_boid(s2[j], s1, p),
{
    broadcast use group_to_multiset_ensures;

    assert(s2.len() == s1.len()) by {
        assert(s1.to_multiset().len() == s1.len());
        assert(s2.to_multiset().len() == s2.len());
    }
    assert forall|i: int| 0 <= i < s2.len() implies boid_bounded(#[trigger] s2[i]) by {
        assert(s2.contains(s2[i]));
        assert(s2.to_multiset().count(s2[i]) > 0);
        assert(s1.contains(s2[i]));
        let w = choose|w: int| 0 <= w < s1.len() && s1[w] == s2[i];
        assert(boid_bounded(s1[w]));
    }
    assert forall|b: Boid| boid_bounded(b) implies step_boid(b, s1, p) == #[trigger] step_boid(
        b,
        s2,
        p,
    ) by {
        lemma_sums_bounded(b, s1, p, s1.len() as int);
        lemma_sums_bounded(b, s2, p, s2.len() as int);
        lemma_sums_upto_u_is_fold(b, s1, p, s1.len() as int);
        lemma_sums_upto_u_is_fold(b, s2, p, s2.len() as int);
        assert(s1.subrange(0, s1.len() as int) =~= s1);
        assert(s2.subrange(0, s2.len() as int) =~= s2);
        lemma_sums_fn_u_commutes(b, p);
        lemma_fold_left_permutation(s1, s2, sums_fn_u(b, p), empty_sums());
        assert(flock_sums(b, s1, p) == flock_sums(b, s2, p));
    }
    assert forall|j: int| 0 <= j < s2.len() implies #[trigger] tick_spec(s2, p)[j] == step_boid(
        s2[j],
        s1,
        p,
    ) by {
        assert(boid_bounded(s2[j]));
        assert(tick_spec(s2, p)[j] == step_boid(s2[j], s2, p));
    }
}

/// A tick is a function of the snapshot and the parameters alone: equal
/// snapshots under equal parameters tick to equal flocks.
pub proof fn lemma_tick_deterministic(s1: Seq<Boid>, s2: Seq<Boid>, p1: Parameters, p2: Parameters)
    requires
        s1 == s2,
        p1 == p2,
    ensures
        tick_spec(s1, p1) == tick_spec(s2, p2),
{
}

/// A tick never creates or removes an agent, and never renames one: the
/// flock keeps its length and every agent its identifier.
pub proof fn lemma_tick_preserves_agents(s: Seq<Boid>, p: Parameters)
    ensures
        tick_spec(s, p).len() == s.len(),
        forall|i: int| 0 <= i < s.len() ==> #[trigger] tick_spec(s, p)[i].id == s[i].id,
{
}

/// BOUNDARY TURNING.  An agent strictly left of the left wall gains
/// `turn_factor` on its x-velocity before clamping; one strictly right of
/// the right wall loses it; one between the walls keeps the x-velocity the
/// separation stage produced.  Symmetrically on the y-axis.
pub proof fn lemma_boundary_turning(b: Boid, s: Seq<Boid>, p: Parameters)
    ensures
        b.x < 0 ==> vel_after_turn(b, flock_sums(b, s, p), p).0 == sat_add_s(
            vel_after_separation(b, flock_sums(b, s, p), p).0,
            p.turn_factor as int,
        ),
        b.x >= 0 && b.x > p.size_x ==> vel_after_turn(b, flock_sums(b, s, p), p).0 == sat_sub_s(
            vel_after_separation(b, flock_sums(b, s, p), p).0,
            p.turn_factor as int,
        ),
        0 <= b.x <= p.size_x ==> vel_after_turn(b, flock_sums(b, s, p), p).0 == vel_after_separation(
            b,
            flock_sums(b, s, p),
            p,
        ).0,
        b.y < 0 ==> vel_after_turn(b, flock_sums(b, s, p), p).1 == sat_add_s(
            vel_after_separation(b, flock_sums(b, s, p), p).1,
            p.turn_factor as int,
        ),
        b.y >= 0 && b.y > p.size_y ==> vel_after_turn(b, flock_sums(b, s, p), p).1 == sat_sub_s(
            vel_after_separation(b, flock_sums(b, s, p), p).1,
            p.turn_factor as int,
        ),
        0 <= b.y <= p.size_y ==> vel_after_turn(b, flock_sums(b, s, p), p).1 == vel_after_separation(
            b,
            flock_sums(b, s, p),
            p,
        ).1,
{
}

/// SEPARATION.  An agent inside another's protected range contributes its
/// signed offset to the separation sum: the contribution points away from
/// the other agent on each axis.
pub proof fn lemma_separation(a: FlockSums, b: Boid, o: Boid, p: Parameters)
    requires
        is_close(b, o, p),
    ensures
        sums_step(a, b, o, p).close_dx == sat_add_s(a.close_dx, dx_of(b, o)),
        sums_step(a, b, o, p).close_dy == sat_add_s(a.close_dy, dy_of(b, o)),
        b.x > o.x ==> dx_of(b, o) > 0,
        b.x < o.x ==> dx_of(b, o) < 0,
        b.y > o.y ==> dy_of(b, o) > 0,
        b.y < o.y ==> dy_of(b, o) < 0,
{
}

/// The absolute value of an integer squares to its own square.
proof fn lemma_abs_sq(x: int)
    ensures
        abs_i(x) * abs_i(x) == x * x,
{
    if x < 0 {
        assert((-x) * (-x) == x * x) by (nonlinear_arith);
    }
}

/// Multiplying by a nonnegative factor scales the absolute value.
proof fn lemma_abs_mul(v: int, m: int)
    requires
        m >= 0,
    ensures
        abs_i(v * m) == abs_i(v) * m,
{
    if v >= 0 {
        assert(v * m >= 0) by (nonlinear_arith)
            requires
                v >= 0,
                m >= 0,
        ;
    } else {
        assert(v * m <= 0 && -(v * m) == (-v) * m) by (nonlinear_arith)
            requires
                v < 0,
                m >= 0,
        ;
    }
}

/// Squaring both sides of an inequality between nonnegative products.
proof fn lemma_sq_prod_le(a: int, s: int, b: int, m: int)
    by (nonlinear_arith)
    requires
        0 <= a,
        0 <= s,
        0 <= b,
        0 <= m,
        a * s <= b * m,
    ensures
        (a * a) * (s * s) <= (b * b) * (m * m),
{
}

/// The arithmetic heart of the up-clamp bound: a squared norm `c2` with
/// `c2 * sp^2 <= n * mn^2`, for a squared speed `sp^2 <= n < (sp+1)^2`
/// and a target `mn > sp`, keeps any root of `c2` below `(sp+1) * mn / sp`.
proof fn lemma_up_clamp_core(n: int, sp: int, mn: int, c2: int, spc: int)
    by (nonlinear_arith)
    requires
        sp >= 1,
        mn > sp,
        sp * sp <= n,
        n < (sp + 1) * (sp + 1),
        c2 * (sp * sp) <= n * (mn * mn),
        0 <= spc,
        spc * spc <= c2,
    ensures
        spc * sp < (sp + 1) * mn,
{
}

/// The arithmetic heart of the down-clamp bound: if the scaled squared
/// norm `c2` satisfies `c2 * sp^2 <= n * mx^2` for a squared speed
/// `sp^2 <= n < (sp+1)^2` and a cap `mx < sp`, then `c2 < (mx+1)^2`.
proof fn lemma_clamp_core(n: int, sp: int, mx: int, c2: int)
    by (nonlinear_arith)
    requires
        sp >= 1,
        0 <= mx < sp,
        sp * sp <= n,
        n < (sp + 1) * (sp + 1),
        c2 * (sp * sp) <= n * (mx * mx),
        c2 >= 0,
    ensures
        c2 < (mx + 1) * (mx + 1),
{
}

/// One component of the down-clamp: scaling `v` by `m / sp` shrinks its
/// square by at least the ratio of the squares.
proof fn lemma_scale_down_component(v: int, m: int, sp: int)
    requires
        1 <= sp,
        0 <= m,
        (i64::MIN as int) <= v <= i64::MAX as int,
    ensures
        (scale_s(v, m, sp) * scale_s(v, m, sp)) * (sp * sp) <= (v * v) * (m * m),
{
    let t = tdiv(v * m, sp);
    let c = scale_s(v, m, sp);
    lemma_tdiv_bounds(v * m, sp);
    assert(abs_i(c) <= abs_i(t));
    assert(abs_i(c) * sp <= abs_i(t) * sp) by (nonlinear_arith)
        requires
            0 <= abs_i(c) <= abs_i(t),
            sp >= 0,
    ;
    lemma_abs_mul(v, m);
    lemma_sq_prod_le(abs_i(c), sp, abs_i(v), m);
    lemma_abs_sq(c);
    lemma_abs_sq(v);
}

/// One component of the up-clamp: scaling `v` by `mn / sp` with
/// `mn > sp` never shrinks its square.
proof fn lemma_scale_up_component(v: int, mn: int, sp: int)
    requires
        1 <= sp < mn,
        (i64::MIN as int) <= v <= i64::MAX as int,
    ensures
        scale_s(v, mn, sp) * scale_s(v, mn, sp) >= v * v,
{
    let t = tdiv(v * mn, sp);
    let c = scale_s(v, mn, sp);
    lemma_abs_mul(v, mn);
    lemma_abs_mul(v, sp);
    assert(abs_i(v) * sp <= abs_i(v) * mn) by (nonlinear_arith)
        requires
            0 <= abs_i(v),
            sp <= mn,
    ;
    lemma_tdiv_mag_ordered(v * sp, v * mn, sp);
    assert(tdiv(v * sp, sp) == v) by {
        if v >= 0 {
            assert(v * sp >= 0) by (nonlinear_arith)
                requires
                    v >= 0,
                    sp >= 1,
            ;
            lemma_div_by_multiple(v, sp);
        } else {
            assert(v * sp < 0 && -(v * sp) == (-v) * sp) by (nonlinear_arith)
                requires
                    v < 0,
                    sp >= 1,
            ;
            lemma_div_by_multiple(-v, sp);
        }
    }
    assert(abs_i(t) >= abs_i(v));
    lemma_tdiv_bounds(v * mn, sp);
    if v >= 0 {
        assert(v * mn >= 0) by (nonlinear_arith)
            requires
                v >= 0,
                mn >= 0,
        ;
        assert(abs_i(c) >= abs_i(v));
    } else {
        assert(v * mn <= 0) by (nonlinear_arith)
            requires
                v < 0,
                mn >= 0,
        ;
        assert(abs_i(c) >= abs_i(v));
    }
    assert(abs_i(c) * abs_i(c) >= abs_i(v) * abs_i(v)) by (nonlinear_arith)
        requires
            0 <= abs_i(v) <= abs_i(c),
    ;
    lemma_abs_sq(c);
    lemma_abs_sq(v);
}

/// SPEED CLAMPING.  For positive clamp bounds and a nonzero pre-clamp
/// speed: a velocity above `max_speed` is brought to at most `max_speed`;
/// one below `min_speed` is never slowed further; one already within the
/// band is untouched.  (A zero pre-clamp velocity is left unchanged by
/// policy, so this law leaves it out: an agent whose corrections cancel
/// its velocity exactly keeps speed zero.)
pub proof fn lemma_speed_clamp(vx: int, vy: int, p: Parameters)
    requires
        1 <= p.min_speed <= p.max_speed,
        (i64::MIN as int) <= vx <= i64::MAX as int,
        (i64::MIN as int) <= vy <= i64::MAX as int,
    ensures
        ({
            let sp = speed_of(vx, vy);
            let cv = clamped_vel(vx, vy, p);
            &&& sp > p.max_speed ==> speed_of(cv.0, cv.1) <= p.max_speed
            &&& 0 < sp < p.min_speed ==> speed_of(cv.0, cv.1) >= sp && speed_of(cv.0, cv.1) * sp
                < (sp + 1) * p.min_speed
            &&& p.min_speed <= sp <= p.max_speed ==> cv == (vx, vy) && speed_of(cv.0, cv.1) == sp
        }),
{
    let n = vx * vx + vy * vy;
    assert(n >= 0) by (nonlinear_arith)
        requires
            n == vx * vx + vy * vy,
    ;
    let sp = speed_of(vx, vy);
    lemma_isqrt_bounds(n as nat);
    assert(sp * sp <= n);
    assert(n < (sp + 1) * (sp + 1));
    if sp > p.max_speed as int {
        let m = p.max_speed as int;
        let cx = scale_s(vx, m, sp);
        let cy = scale_s(vy, m, sp);
        lemma_scale_down_component(vx, m, sp);
        lemma_scale_down_component(vy, m, sp);
        let c2 = cx * cx + cy * cy;
        assert(cx * cx >= 0 && cy * cy >= 0) by (nonlinear_arith);
        assert(c2 * (sp * sp) == (cx * cx) * (sp * sp) + (cy * cy) * (sp * sp))
            by (nonlinear_arith)
            requires
                c2 == cx * cx + cy * cy,
        ;
        assert(n * (m * m) == (vx * vx) * (m * m) + (vy * vy) * (m * m)) by (nonlinear_arith)
            requires
                n == vx * vx + vy * vy,
        ;
        lemma_clamp_core(n, sp, m, c2);
        let spc = speed_of(cx, cy);
        lemma_isqrt_bounds(c2 as nat);
        assert(spc * spc <= c2);
        if spc > m {
            assert((m + 1) * (m + 1) <= spc * spc) by (nonlinear_arith)
                requires
                    0 <= m + 1 <= spc,
            ;
        }
    } else if 0 < sp && sp < p.min_speed as int {
        let mn = p.min_speed as int;
        let cx = scale_s(vx, mn, sp);
        let cy = scale_s(vy, mn, sp);
        lemma_scale_up_component(vx, mn, sp);
        lemma_scale_up_component(vy, mn, sp);
        let c2 = cx * cx + cy * cy;
        assert(c2 >= n);
        lemma_isqrt_monotone(n as nat, c2 as nat);
        lemma_scale_down_component(vx, mn, sp);
        lemma_scale_down_component(vy, mn, sp);
        assert(c2 * (sp * sp) == (cx * cx) * (sp * sp) + (cy * cy) * (sp * sp))
            by (nonlinear_arith)
            requires
                c2 == cx * cx + cy * cy,
        ;
        assert(n * (mn * mn) == (vx * vx) * (mn * mn) + (vy * vy) * (mn * mn)) by (nonlinear_arith)
            requires
                n == vx * vx + vy * vy,
        ;
        let spc = speed_of(cx, cy);
        lemma_isqrt_bounds(c2 as nat);
        lemma_up_clamp_core(n, sp, mn, c2, spc);
    }
}

/// The velocity the turning stage hands to the clamp is always within
/// scalar range.
proof fn lemma_turn_vel_in_range(b: Boid, a: FlockSums, p: Parameters)
    ensures
        (i64::MIN as int) <= vel_after_turn(b, a, p).0 <= i64::MAX as int,
        (i64::MIN as int) <= vel_after_turn(b, a, p).1 <= i64::MAX as int,
{
}

/// SPEED CLAMPING, AT THE TICK.  The speed written back by a tick obeys
/// `lemma_speed_clamp` applied to the velocity that the turning stage
/// produced for that agent.
pub proof fn lemma_tick_speed_clamped(b: Boid, s: Seq<Boid>, p: Parameters)
    requires
        1 <= p.min_speed <= p.max_speed,
    ensures
        ({
            let a = flock_sums(b, s, p);
            let tv = vel_after_turn(b, a, p);
            let sp = speed_of(tv.0, tv.1);
            let nb = step_boid(b, s, p);
            &&& sp > p.max_speed ==> speed_of(nb.vx as int, nb.vy as int) <= p.max_speed
            &&& 0 < sp < p.min_speed ==> speed_of(nb.vx as int, nb.vy as int) >= sp && speed_of(
                nb.vx as int,
                nb.vy as int,
            ) * sp < (sp + 1) * p.min_speed
            &&& p.min_speed <= sp <= p.max_speed ==> speed_of(nb.vx as int, nb.vy as int) == sp
        }),
{
    let a = flock_sums(b, s, p);
    let tv = vel_after_turn(b, a, p);
    lemma_turn_vel_in_range(b, a, p);
    lemma_speed_clamp(tv.0, tv.1, p);
}

/// PARAMETER REPLACEMENT TIMING.  Replacing the parameters leaves the
/// agents exactly as they were (nothing retroactive), so the very next
/// tick is a tick of the unchanged agents under the new parameters.
pub proof fn lemma_replace_parameters(before: Simulation, after: Simulation, p_new: Parameters)
    requires
        after.boids@ == before.boids@,
        after.parameters == p_new,
    ensures
        tick_spec(after.boids@, after.parameters) == tick_spec(before.boids@, p_new),
{
}

/// A RENDER SNAPSHOT IS PURE.  Its contract pins the result as a function
/// of the flock alone, so two snapshots with no tick between them are
/// identical.
pub proof fn lemma_snapshot_pure(v1: Seq<(i64, i64)>, v2: Seq<(i64, i64)>, s: Seq<Boid>)
    requires
        v1 == positions_of(s),
        v2 == positions_of(s),
    ensures
        v1 == v2,
{
}

} // verus!
