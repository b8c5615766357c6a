//! The flocking simulation engine.
//!
//! A `Simulation` owns an ordered collection of agents (`Boid`) and one
//! `Parameters` value.  Each tick updates every agent from a frozen
//! snapshot of the pre-tick agent states, so the result is independent of
//! the order in which agents are visited.  The whole per-tick pipeline is
//! specified exactly by the spec functions in this module, stage by stage:
//! neighbor accumulation, cohesion/alignment, separation, boundary turning,
//! speed clamping and integration.

use vstd::prelude::*;
use crate::fixp::{
    abs_i, clip64, tdiv, sat_add_s, sat_sub_s, fmul_s, scale_s, isqrt_s, sat_add, sat_sub, fmul,
    mul_div, div_count, isqrt, sq_u, abs_wide,
};
use vstd::arithmetic::div_mod::lemma_fundamental_div_mod_converse;

verus! {

/// Default turn factor: 10 simulation units.
pub const TURN_FACTOR: i64 = 100000;

/// Default visual range: 20 simulation units.
pub const VISUAL_RANGE: i64 = 200000;

/// Default protected range: 5 simulation units.
pub const PROTECTED_RANGE: i64 = 50000;

/// Default centering factor: 0.0005.
pub const CENTERING_FACTOR: i64 = 5;

/// Default avoid factor: 0.05.
pub const AVOID_FACTOR: i64 = 500;

/// Default match factor: 0.5.
pub const MATCH_FACTOR: i64 = 5000;

/// Default maximum speed: 3 simulation units per tick.
pub const MAX_SPEED: i64 = 30000;

/// Default minimum speed: 2 simulation units per tick.
pub const MIN_SPEED: i64 = 20000;

/// Default world size: 100 simulation units on each axis.
pub const SIZE: i64 = 1000000;

/// The lattice spacing of `initialize`: half a simulation unit.
pub const HALF_STEP: i64 = 5000;

/// Offset of the seeding lattice from the origin: 45 simulation units.
pub const LATTICE_BASE: i64 = 450000;

/// The tunable constants of the flocking rules, immutable during a tick.
/// All scalars are fixed-point values counting `SCALE`-ths of a unit.
#[derive(Clone, Copy, PartialEq, Eq, Structural, Debug)]
pub struct Parameters {
    pub turn_factor: i64,
    pub visual_range: i64,
    pub protected_range: i64,
    pub centering_factor: i64,
    pub avoid_factor: i64,
    pub match_factor: i64,
    pub max_speed: i64,
    pub min_speed: i64,
    pub size_x: i64,
    pub size_y: i64,
}

/// One agent: a stable identifier, a position and a velocity.
#[derive(Clone, Copy, PartialEq, Eq, Structural, Debug)]
pub struct Boid {
    pub id: usize,
    pub x: i64,
    pub y: i64,
    pub vx: i64,
    pub vy: i64,
}

/// An ordered flock of agents together with the current parameters.
#[derive(Clone, Debug)]
pub struct Simulation {
    pub boids: Vec<Boid>,
    pub parameters: Parameters,
}

/// The conventional default parameter set.
pub open spec fn default_parameters() -> Parameters {
    Parameters {
        turn_factor: TURN_FACTOR,
        visual_range: VISUAL_RANGE,
        protected_range: PROTECTED_RANGE,
        centering_factor: CENTERING_FACTOR,
        avoid_factor: AVOID_FACTOR,
        match_factor: MATCH_FACTOR,
        max_speed: MAX_SPEED,
        min_speed: MIN_SPEED,
        size_x: SIZE,
        size_y: SIZE,
    }
}

/// Signed x-offset from `o` to `b`, saturated into scalar range.
pub open spec fn dx_of(b: Boid, o: Boid) -> int {
    sat_sub_s(b.x as int, o.x as int)
}

/// Signed y-offset from `o` to `b`, saturated into scalar range.
pub open spec fn dy_of(b: Boid, o: Boid) -> int {
    sat_sub_s(b.y as int, o.y as int)
}

/// Squared distance between `b` and `o` over the saturated offsets.
pub open spec fn dist_sq(b: Boid, o: Boid) -> int {
    dx_of(b, o) * dx_of(b, o) + dy_of(b, o) * dy_of(b, o)
}

/// The broad-phase filter: another agent, within the visual range on both
/// axes independently.
pub open spec fn in_sight(b: Boid, o: Boid, p: Parameters) -> bool {
    o.id != b.id && abs_i(dx_of(b, o)) < p.visual_range as int && abs_i(dy_of(b, o))
        < p.visual_range as int
}

/// `o` contributes to `b`'s separation: inside the protected range.
pub open spec fn is_close(b: Boid, o: Boid, p: Parameters) -> bool {
    in_sight(b, o, p) && dist_sq(b, o) < (p.protected_range as int) * (p.protected_range as int)
}

/// `o` contributes to `b`'s alignment and cohesion: inside the visual range
/// but not inside the protected range.  The two bands are mutually
/// exclusive.
pub open spec fn is_neighbor(b: Boid, o: Boid, p: Parameters) -> bool {
    in_sight(b, o, p) && !is_close(b, o, p) && dist_sq(b, o) < (p.visual_range as int) * (
    p.visual_range as int)
}

/// The per-agent accumulators of one neighbor scan.
pub struct FlockSums {
    pub close_dx: int,
    pub close_dy: int,
    pub xpos_sum: int,
    pub ypos_sum: int,
    pub xvel_sum: int,
    pub yvel_sum: int,
    pub neighbors: int,
}

/// Accumulators before any other agent has been examined.
pub open spec fn empty_sums() -> FlockSums {
    FlockSums {
        close_dx: 0,
        close_dy: 0,
        xpos_sum: 0,
        ypos_sum: 0,
        xvel_sum: 0,
        yvel_sum: 0,
        neighbors: 0,
    }
}

/// Folds one other agent into `b`'s accumulators, saturating each sum.
pub open spec fn sums_step(a: FlockSums, b: Boid, o: Boid, p: Parameters) -> FlockSums {
    if is_close(b, o, p) {
        FlockSums {
            close_dx: sat_add_s(a.close_dx, dx_of(b, o)),
            close_dy: sat_add_s(a.close_dy, dy_of(b, o)),
            ..a
        }
    } else if is_neighbor(b, o, p) {
        FlockSums {
            xpos_sum: sat_add_s(a.xpos_sum, o.x as int),
            ypos_sum: sat_add_s(a.ypos_sum, o.y as int),
            xvel_sum: sat_add_s(a.xvel_sum, o.vx as int),
            yvel_sum: sat_add_s(a.yvel_sum, o.vy as int),
            neighbors: a.neighbors + 1,
            ..a
        }
    } else {
        a
    }
}

/// `b`'s accumulators over the first `k` agents of the snapshot `s`.
pub open spec fn sums_upto(b: Boid, s: Seq<Boid>, p: Parameters, k: int) -> FlockSums
    decreases k,
{
    if k <= 0 {
        empty_sums()
    } else {
        sums_step(sums_upto(b, s, p, k - 1), b, s[k - 1], p)
    }
}

/// `b`'s accumulators over the whole snapshot `s`.
pub open spec fn flock_sums(b: Boid, s: Seq<Boid>, p: Parameters) -> FlockSums {
    sums_upto(b, s, p, s.len() as int)
}

/// Velocity after the cohesion and alignment corrections.
pub open spec fn vel_after_flock(b: Boid, a: FlockSums, p: Parameters) -> (int, int) {
    if a.neighbors > 0 {
        let vx: int = sat_add_s(
            sat_add_s(
                b.vx as int,
                fmul_s(
                    sat_sub_s(tdiv(a.xpos_sum, a.neighbors), b.x as int),
                    p.centering_factor as int,
                ),
            ),
            fmul_s(sat_sub_s(tdiv(a.xvel_sum, a.neighbors), b.vx as int), p.match_factor as int),
        );
        let vy: int = sat_add_s(
            sat_add_s(
                b.vy as int,
                fmul_s(
                    sat_sub_s(tdiv(a.ypos_sum, a.neighbors), b.y as int),
                    p.centering_factor as int,
                ),
            ),
            fmul_s(sat_sub_s(tdiv(a.yvel_sum, a.neighbors), b.vy as int), p.match_factor as int),
        );
        (vx, vy)
    } else {
        (b.vx as int, b.vy as int)
    }
}

/// Velocity after the separation correction.
pub open spec fn vel_after_separation(b: Boid, a: FlockSums, p: Parameters) -> (int, int) {
    let (vx, vy): (int, int) = vel_after_flock(b, a, p);
    (
        sat_add_s(vx, fmul_s(a.close_dx, p.avoid_factor as int)),
        sat_add_s(vy, fmul_s(a.close_dy, p.avoid_factor as int)),
    )
}

/// One axis of boundary turning: a soft push back into `[0, size]`.
pub open spec fn turned(pos: int, v: int, size: int, turn: int) -> int {
    if pos < 0 {
        sat_add_s(v, turn)
    } else if pos > size {
        sat_sub_s(v, turn)
    } else {
        v
    }
}

/// Velocity after boundary turning on both axes.
pub open spec fn vel_after_turn(b: Boid, a: FlockSums, p: Parameters) -> (int, int) {
    let (vx, vy): (int, int) = vel_after_separation(b, a, p);
    (
        turned(b.x as int, vx, p.size_x as int, p.turn_factor as int),
        turned(b.y as int, vy, p.size_y as int, p.turn_factor as int),
    )
}

/// The speed of a velocity: the integer square root of its squared norm.
pub open spec fn speed_of(vx: int, vy: int) -> int {
    isqrt_s((vx * vx + vy * vy) as nat) as int
}

/// The speed clamp.  A velocity faster than `max_speed` is scaled down to
/// it; one slower than `min_speed` is scaled up toward it.  A zero
/// velocity has no heading to scale and is left unchanged: that is this
/// engine's explicit policy for the otherwise-undefined zero-speed case.
pub open spec fn clamped_vel(vx: int, vy: int, p: Parameters) -> (int, int) {
    let sp: int = speed_of(vx, vy);
    if sp == 0 {
        (vx, vy)
    } else if sp > p.max_speed as int {
        (scale_s(vx, p.max_speed as int, sp), scale_s(vy, p.max_speed as int, sp))
    } else if sp < p.min_speed as int {
        (scale_s(vx, p.min_speed as int, sp), scale_s(vy, p.min_speed as int, sp))
    } else {
        (vx, vy)
    }
}

/// The full update of one agent against the frozen snapshot `s`: neighbor
/// accumulation, cohesion/alignment, separation, boundary turning, speed
/// clamping, then one Euler step of the position.
pub open spec fn step_boid(b: Boid, s: Seq<Boid>, p: Parameters) -> Boid {
    let a = flock_sums(b, s, p);
    let (tvx, tvy): (int, int) = vel_after_turn(b, a, p);
    let (cvx, cvy): (int, int) = clamped_vel(tvx, tvy, p);
    Boid {
        id: b.id,
        x: clip64(b.x as int + cvx),
        y: clip64(b.y as int + cvy),
        vx: clip64(cvx),
        vy: clip64(cvy),
    }
}

/// One tick of the whole flock: every agent stepped against the same
/// frozen snapshot.
pub open spec fn tick_spec(s: Seq<Boid>, p: Parameters) -> Seq<Boid> {
    Seq::new(s.len(), |i: int| step_boid(s[i], s, p))
}

/// The agent seeded at lattice index `k` by `initialize(n)`.
pub open spec fn lattice_boid(n: int, k: int) -> Boid {
    Boid {
        id: k as usize,
        x: ((k / n) * HALF_STEP as int + LATTICE_BASE as int) as i64,
        y: ((k % n) * HALF_STEP as int + LATTICE_BASE as int) as i64,
        vx: 0,
        vy: 0,
    }
}

/// The rendering snapshot: every agent's position, in flock order.
pub open spec fn positions_of(s: Seq<Boid>) -> Seq<(i64, i64)> {
    Seq::new(s.len(), |i: int| (s[i].x, s[i].y))
}

impl Boid {
    /// The agent's current position, for a drawer to plot.
    pub fn position(&self) -> (r: (i64, i64))
        ensures
            r == (self.x, self.y),
    {
        (self.x, self.y)
    }
}

/// Steps the one agent at index `i` against the frozen snapshot `boids`.
#[verifier::loop_isolation(false)]
fn step_one(boids: &Vec<Boid>, i: usize, p: &Parameters) -> (r: Boid)
    requires
        i < boids@.len(),
    ensures
        r == step_boid(boids@[i as int], boids@, *p),
{
    let b = boids[i];
    let n = boids.len();

    let mut close_dx: i64 = 0;
    let mut close_dy: i64 = 0;
    let mut xpos_sum: i64 = 0;
    let mut ypos_sum: i64 = 0;
    let mut xvel_sum: i64 = 0;
    let mut yvel_sum: i64 = 0;
    let mut neighbors: usize = 0;

    let mut j: usize = 0;
    while j < n
        invariant
            j <= n,
            neighbors <= j,
            close_dx as int == sums_upto(b, boids@, *p, j as int).close_dx,
            close_dy as int == sums_upto(b, boids@, *p, j as int).close_dy,
            xpos_sum as int == sums_upto(b, boids@, *p, j as int).xpos_sum,
            ypos_sum as int == sums_upto(b, boids@, *p, j as int).ypos_sum,
            xvel_sum as int == sums_upto(b, boids@, *p, j as int).xvel_sum,
            yvel_sum as int == sums_upto(b, boids@, *p, j as int).yvel_sum,
            neighbors as int == sums_upto(b, boids@, *p, j as int).neighbors,
        decreases n - j,
    {
        let o = boids[j];
        if o.id != b.id {
            let dx = sat_sub(b.x, o.x);
            let dy = sat_sub(b.y, o.y);
            let adx = abs_wide(dx);
            let ady = abs_wide(dy);
            if adx < p.visual_range as i128 && ady < p.visual_range as i128 {
                let d2: u128 = sq_u(dx) + sq_u(dy);
                let pr2: u128 = sq_u(p.protected_range);
                let vr2: u128 = sq_u(p.visual_range);
                if d2 < pr2 {
                    close_dx = sat_add(close_dx, dx);
                    close_dy = sat_add(close_dy, dy);
                    proof {
                        assert(is_close(b, boids@[j as int], *p));
                    }
                } else if d2 < vr2 {
                    xpos_sum = sat_add(xpos_sum, o.x);
                    ypos_sum = sat_add(ypos_sum, o.y);
                    xvel_sum = sat_add(xvel_sum, o.vx);
                    yvel_sum = sat_add(yvel_sum, o.vy);
                    neighbors = neighbors + 1;
                    proof {
                        assert(is_neighbor(b, boids@[j as int], *p));
                    }
                } else {
                    proof {
                        assert(!is_close(b, boids@[j as int], *p));
                        assert(!is_neighbor(b, boids@[j as int], *p));
                    }
                }
            } else {
                proof {
                    assert(!in_sight(b, boids@[j as int], *p));
                }
            }
        }
        proof {
            assert(sums_upto(b, boids@, *p, j as int + 1) == sums_step(
                sums_upto(b, boids@, *p, j as int),
                b,
                boids@[j as int],
                *p,
            ));
        }
        j = j + 1;
    }

    let ghost sums = flock_sums(b, boids@, *p);

    let mut vx: i64 = b.vx;
    let mut vy: i64 = b.vy;
    if neighbors > 0 {
        let cnt: u64 = neighbors as u64;
        let xa = div_count(xpos_sum, cnt);
        let ya = div_count(ypos_sum, cnt);
        let xva = div_count(xvel_sum, cnt);
        let yva = div_count(yvel_sum, cnt);
        let cx = fmul(sat_sub(xa, b.x), p.centering_factor);
        let mx = fmul(sat_sub(xva, b.vx), p.match_factor);
        vx = sat_add(sat_add(b.vx, cx), mx);
        let cy = fmul(sat_sub(ya, b.y), p.centering_factor);
        let my = fmul(sat_sub(yva, b.vy), p.match_factor);
        vy = sat_add(sat_add(b.vy, cy), my);
    }
    proof {
        assert((vx as int, vy as int) == vel_after_flock(b, sums, *p));
    }

    vx = sat_add(vx, fmul(close_dx, p.avoid_factor));
    vy = sat_add(vy, fmul(close_dy, p.avoid_factor));
    proof {
        assert((vx as int, vy as int) == vel_after_separation(b, sums, *p));
    }

    if b.x < 0 {
        vx = sat_add(vx, p.turn_factor);
    } else if b.x > p.size_x {
        vx = sat_sub(vx, p.turn_factor);
    }
    if b.y < 0 {
        vy = sat_add(vy, p.turn_factor);
    } else if b.y > p.size_y {
        vy = sat_sub(vy, p.turn_factor);
    }
    proof {
        assert((vx as int, vy as int) == vel_after_turn(b, sums, *p));
    }

    let ghost tvx = vx as int;
    let ghost tvy = vy as int;
    let d2: u128 = sq_u(vx) + sq_u(vy);
    proof {
        assert(d2 as nat == (tvx * tvx + tvy * tvy) as nat);
    }
    let sp: u64 = isqrt(d2);
    proof {
        assert(sp as int == speed_of(tvx, tvy));
    }
    if sp > 0 {
        if sp as i128 > p.max_speed as i128 {
            let nvx = mul_div(vx, p.max_speed, sp);
            let nvy = mul_div(vy, p.max_speed, sp);
            vx = nvx;
            vy = nvy;
        } else if (sp as i128) < (p.min_speed as i128) {
            let nvx = mul_div(vx, p.min_speed, sp);
            let nvy = mul_div(vy, p.min_speed, sp);
            vx = nvx;
            vy = nvy;
        }
    }
    proof {
        assert((vx as int, vy as int) == clamped_vel(tvx, tvy, *p));
    }

    let x = sat_add(b.x, vx);
    let y = sat_add(b.y, vy);
    Boid { id: b.id, x, y, vx, vy }
}

impl Simulation {
    /// An empty flock with the default parameters.
    pub fn new() -> (s: Simulation)
        ensures
            s.boids@.len() == 0,
            s.parameters == default_parameters(),
    {
        Simulation {
            boids: Vec::new(),
            parameters: Parameters {
                turn_factor: TURN_FACTOR,
                visual_range: VISUAL_RANGE,
                protected_range: PROTECTED_RANGE,
                centering_factor: CENTERING_FACTOR,
                avoid_factor: AVOID_FACTOR,
                match_factor: MATCH_FACTOR,
                max_speed: MAX_SPEED,
                min_speed: MIN_SPEED,
                size_x: SIZE,
                size_y: SIZE,
            },
        }
    }

    /// Appends one agent at the given position with zero velocity; its
    /// identifier is the agent count before the append, so identifiers
    /// stay unique and sequential.
    pub fn add_new(&mut self, x: i64, y: i64)
        ensures
            final(self).parameters == old(self).parameters,
            final(self).boids@ == old(self).boids@.push(
                Boid { id: old(self).boids@.len() as usize, x, y, vx: 0, vy: 0 },
            ),
    {
        let id = self.boids.len();
        self.boids.push(Boid { id, x, y, vx: 0, vy: 0 });
    }

    /// A flock of `num * num` agents on a diagonal lattice, with the
    /// default parameters.  A non-positive `num` yields an empty flock,
    /// not an error.  Identifiers increase with insertion order, in
    /// row-major order of the lattice indices.
    #[verifier::loop_isolation(false)]
    pub fn initialize(num: i32) -> (s: Simulation)
        requires
            num > 0 ==> num * num <= usize::MAX,
        ensures
            s.parameters == default_parameters(),
            num <= 0 ==> s.boids@.len() == 0,
            num > 0 ==> s.boids@.len() == num * num,
            forall|k: int|
                0 <= k < s.boids@.len() ==> #[trigger] s.boids@[k] == lattice_boid(num as int, k),
    {
        let mut s = Simulation::new();
        if num <= 0 {
            return s;
        }
        let mut i: i32 = 0;
        while i < num
            invariant
                0 <= i <= num,
                s.parameters == default_parameters(),
                s.boids@.len() == i * num,
                forall|k: int|
                    0 <= k < s.boids@.len() ==> #[trigger] s.boids@[k] == lattice_boid(
                        num as int,
                        k,
                    ),
            decreases num - i,
        {
            let mut j: i32 = 0;
            while j < num
                invariant
                    0 <= j <= num,
                    s.parameters == default_parameters(),
                    s.boids@.len() == i * num + j,
                    forall|k: int|
                        0 <= k < s.boids@.len() ==> s.boids@[k] == lattice_boid(num as int, k),
                decreases num - j,
            {
                let x: i64 = (i as i64) * HALF_STEP + LATTICE_BASE;
                let y: i64 = (j as i64) * HALF_STEP + LATTICE_BASE;
                proof {
                    lemma_fundamental_div_mod_converse(
                        i * num + j,
                        num as int,
                        i as int,
                        j as int,
                    );
                }
                s.add_new(x, y);
                j = j + 1;
            }
            proof {
                assert((i as int + 1) * (num as int) == i as int * (num as int) + (num as int))
                    by (nonlinear_arith);
            }
            i = i + 1;
        }
        s
    }

    /// Advances the whole flock by one tick.  Every agent is stepped
    /// against the same frozen pre-tick snapshot, so the outcome does not
    /// depend on the order in which agents are visited; the agent count
    /// never changes.
    #[verifier::loop_isolation(false)]
    pub fn update(&mut self)
        ensures
            final(self).parameters == old(self).parameters,
            final(self).boids@.len() == old(self).boids@.len(),
            final(self).boids@ == tick_spec(old(self).boids@, old(self).parameters),
    {
        let n = self.boids.len();
        let mut fresh: Vec<Boid> = Vec::new();
        let mut i: usize = 0;
        while i < n
            invariant
                i <= n,
                fresh@.len() == i,
                forall|k: int|
                    0 <= k < i ==> fresh@[k] == step_boid(self.boids@[k], self.boids@, self.parameters),
            decreases n - i,
        {
            let stepped = step_one(&self.boids, i, &self.parameters);
            fresh.push(stepped);
            i = i + 1;
        }
        proof {
            assert(fresh@ =~= tick_spec(self.boids@, self.parameters));
        }
        self.boids = fresh;
    }

    /// Replaces the whole parameter set.  The agents are untouched, so the
    /// change takes effect on the next tick and never retroactively.
    pub fn update_params(&mut self, params: Parameters)
        ensures
            final(self).parameters == params,
            final(self).boids@ == old(self).boids@,
    {
        self.parameters = params;
    }

    /// The current positions, in flock order, for an external drawer.
    /// A pure read: the result is a function of the current state alone.
    #[verifier::loop_isolation(false)]
    pub fn snapshot(&self) -> (r: Vec<(i64, i64)>)
        ensures
            r@ == positions_of(self.boids@),
    {
        let mut r: Vec<(i64, i64)> = Vec::new();
        let mut i: usize = 0;
        while i < self.boids.len()
            invariant
                i <= self.boids@.len(),
                r@.len() == i,
                forall|k: int| 0 <= k < i ==> r@[k] == (self.boids@[k].x, self.boids@[k].y),
            decreases self.boids@.len() - i,
        {
            let b = self.boids[i];
            r.push((b.x, b.y));
            i = i + 1;
        }
        proof {
            assert(r@ =~= positions_of(self.boids@));
        }
        r
    }
}

} // verus!
