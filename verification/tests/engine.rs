use boids::sim::{Boid, Parameters, Simulation};
use boids::sim::{
    AVOID_FACTOR, CENTERING_FACTOR, MATCH_FACTOR, MAX_SPEED, MIN_SPEED, PROTECTED_RANGE, SIZE,
    TURN_FACTOR, VISUAL_RANGE,
};

fn default_params() -> Parameters {
    Parameters {
        turn_factor: TURN_FACTOR,
        visual_range: VISUAL_RANGE,
        protected_range: PROTECTED_RANGE,
        centering_factor: CENTERING_FACTOR,
        avoid_factor: AVOID_FACTOR,
        match_factor: MATCH_FACTOR,
        max_speed: MAX_SPEED,
        min_speed: MIN_SPEED,
        size_x: SIZE,
        size_y: SIZE,
    }
}

fn lone_boid(x: i64, y: i64, vx: i64, vy: i64) -> Simulation {
    Simulation {
        boids: vec![Boid { id: 0, x, y, vx, vy }],
        parameters: default_params(),
    }
}

#[test]
fn new_has_default_parameters() {
    let s = Simulation::new();
    assert_eq!(s.boids.len(), 0);
    assert_eq!(s.parameters, default_params());
    assert_eq!(s.parameters.turn_factor, 100000);
    assert_eq!(s.parameters.visual_range, 200000);
    assert_eq!(s.parameters.protected_range, 50000);
    assert_eq!(s.parameters.centering_factor, 5);
    assert_eq!(s.parameters.avoid_factor, 500);
    assert_eq!(s.parameters.match_factor, 5000);
    assert_eq!(s.parameters.max_speed, 30000);
    assert_eq!(s.parameters.min_speed, 20000);
    assert_eq!(s.parameters.size_x, 1000000);
    assert_eq!(s.parameters.size_y, 1000000);
}

#[test]
fn initialize_zero_yields_no_agents() {
    let s = Simulation::initialize(0);
    assert_eq!(s.boids.len(), 0);
}

#[test]
fn initialize_negative_yields_no_agents() {
    let s = Simulation::initialize(-7);
    assert_eq!(s.boids.len(), 0);
}

#[test]
fn initialize_builds_the_lattice() {
    let n: i64 = 3;
    let s = Simulation::initialize(3);
    assert_eq!(s.boids.len(), 9);
    for k in 0..9usize {
        let b = &s.boids[k];
        assert_eq!(b.id, k);
        assert_eq!(b.x, (k as i64 / n) * 5000 + 450000);
        assert_eq!(b.y, (k as i64 % n) * 5000 + 450000);
        assert_eq!(b.vx, 0);
        assert_eq!(b.vy, 0);
    }
    // ids are unique
    for a in 0..9usize {
        for b in (a + 1)..9usize {
            assert_ne!(s.boids[a].id, s.boids[b].id);
        }
    }
}

#[test]
fn add_new_assigns_sequential_ids() {
    let mut s = Simulation::new();
    s.add_new(10000, 20000);
    s.add_new(-30000, 40000);
    assert_eq!(s.boids.len(), 2);
    assert_eq!(s.boids[0].id, 0);
    assert_eq!(s.boids[1].id, 1);
    assert_eq!(s.boids[0].x, 10000);
    assert_eq!(s.boids[0].y, 20000);
    assert_eq!(s.boids[1].x, -30000);
    assert_eq!(s.boids[1].vx, 0);
    assert_eq!(s.boids[1].vy, 0);
}

#[test]
fn tick_preserves_count_and_ids() {
    let mut s = Simulation::initialize(4);
    assert_eq!(s.boids.len(), 16);
    s.update();
    assert_eq!(s.boids.len(), 16);
    for k in 0..16usize {
        assert_eq!(s.boids[k].id, k);
    }
    s.update();
    assert_eq!(s.boids.len(), 16);
}

#[test]
fn clamp_scales_fast_agent_down_to_max_speed() {
    let mut s = lone_boid(500000, 500000, 40000, 0);
    s.update();
    let b = &s.boids[0];
    // speed 40000 > max 30000: scaled by 30000/40000
    assert_eq!(b.vx, 30000);
    assert_eq!(b.vy, 0);
    assert_eq!(b.x, 530000);
    assert_eq!(b.y, 500000);
}

#[test]
fn clamp_scales_slow_agent_up_to_min_speed() {
    let mut s = lone_boid(500000, 500000, 10000, 0);
    s.update();
    let b = &s.boids[0];
    // speed 10000 < min 20000: scaled by 20000/10000
    assert_eq!(b.vx, 20000);
    assert_eq!(b.vy, 0);
    assert_eq!(b.x, 520000);
}

#[test]
fn zero_velocity_is_left_unchanged() {
    let mut s = lone_boid(500000, 500000, 0, 0);
    s.update();
    let b = &s.boids[0];
    assert_eq!(b.vx, 0);
    assert_eq!(b.vy, 0);
    assert_eq!(b.x, 500000);
    assert_eq!(b.y, 500000);
}

#[test]
fn left_wall_adds_turn_factor_before_clamping() {
    // an agent one unit left of the left wall
    let mut s = lone_boid(-10000, 500000, 0, 0);
    s.update();
    let b = &s.boids[0];
    // vx gained +turn_factor (100000), then was clamped to max 30000
    assert_eq!(b.vx, 30000);
    assert_eq!(b.vy, 0);
    assert_eq!(b.x, -10000 + 30000);
    assert_eq!(b.y, 500000);
}

#[test]
fn right_wall_subtracts_turn_factor_before_clamping() {
    // an agent one unit right of the right wall
    let mut s = lone_boid(1010000, 500000, 0, 0);
    s.update();
    let b = &s.boids[0];
    assert_eq!(b.vx, -30000);
    assert_eq!(b.x, 1010000 - 30000);
}

#[test]
fn bottom_and_top_walls_turn_on_y() {
    let mut s = lone_boid(500000, -10000, 0, 0);
    s.update();
    assert_eq!(s.boids[0].vy, 30000);
    let mut t = lone_boid(500000, 1010000, 0, 0);
    t.update();
    assert_eq!(t.boids[0].vy, -30000);
}

#[test]
fn separation_pushes_close_agents_apart() {
    // two agents two units apart on the x-axis, inside the protected range
    let mut s = Simulation {
        boids: vec![
            Boid { id: 0, x: 500000, y: 500000, vx: 0, vy: 0 },
            Boid { id: 1, x: 520000, y: 500000, vx: 0, vy: 0 },
        ],
        parameters: default_params(),
    };
    s.update();
    let a = &s.boids[0];
    let b = &s.boids[1];
    // close_dx of agent 0 is -20000; * avoid 0.05 = -1000; clamped up to min
    assert_eq!(a.vx, -20000);
    assert_eq!(a.vy, 0);
    assert_eq!(a.x, 480000);
    // agent 1 symmetric: pushed the other way
    assert_eq!(b.vx, 20000);
    assert_eq!(b.x, 540000);
    // they moved apart
    assert!(a.vx < 0 && b.vx > 0);
}

#[test]
fn cohesion_and_alignment_in_the_visual_band() {
    // ten units apart: outside the protected range, inside the visual range
    let mut s = Simulation {
        boids: vec![
            Boid { id: 0, x: 400000, y: 500000, vx: 0, vy: 0 },
            Boid { id: 1, x: 500000, y: 500000, vx: 20000, vy: 0 },
        ],
        parameters: default_params(),
    };
    s.update();
    let a = &s.boids[0];
    let b = &s.boids[1];
    // agent 0: centering (500000-400000)*0.0005 = 50, matching (20000-0)*0.5
    // = 10000, then clamped up from 10050 to min speed 20000
    assert_eq!(a.vx, 20000);
    assert_eq!(a.x, 420000);
    // agent 1: centering -50, matching -10000: 9950, clamped up to 20000
    assert_eq!(b.vx, 20000);
    assert_eq!(b.x, 520000);
}

#[test]
fn protected_band_excludes_alignment() {
    // exactly at the protected range: the separation band is strict,
    // so this pair aligns instead
    let mut s = Simulation {
        boids: vec![
            Boid { id: 0, x: 500000, y: 500000, vx: 0, vy: 0 },
            Boid { id: 1, x: 550000, y: 500000, vx: 20000, vy: 0 },
        ],
        parameters: default_params(),
    };
    s.update();
    let a = &s.boids[0];
    // centering (550000-500000)*0.0005 = 25, matching 10000: 10025 -> 20000
    assert_eq!(a.vx, 20000);
    assert_eq!(a.x, 520000);
}

#[test]
fn tick_is_deterministic() {
    let mut s1 = Simulation::initialize(5);
    let mut s2 = Simulation::initialize(5);
    for _ in 0..3 {
        s1.update();
        s2.update();
    }
    assert_eq!(s1.boids.len(), s2.boids.len());
    for k in 0..s1.boids.len() {
        assert_eq!(s1.boids[k], s2.boids[k]);
    }
}

#[test]
fn tick_is_order_independent() {
    let flock = vec![
        Boid { id: 0, x: 500000, y: 500000, vx: 11000, vy: -3000 },
        Boid { id: 1, x: 520000, y: 510000, vx: -9000, vy: 14000 },
        Boid { id: 2, x: 610000, y: 490000, vx: 25000, vy: 2500 },
        Boid { id: 3, x: 450000, y: 700000, vx: 0, vy: -21000 },
    ];
    let mut reversed = flock.clone();
    reversed.reverse();
    let mut s1 = Simulation { boids: flock, parameters: default_params() };
    let mut s2 = Simulation { boids: reversed, parameters: default_params() };
    s1.update();
    s2.update();
    for a in &s1.boids {
        let twin = s2.boids.iter().find(|b| b.id == a.id).unwrap();
        assert_eq!(a, twin);
    }
}

#[test]
fn replace_parameters_takes_effect_next_tick() {
    let seed = vec![
        Boid { id: 0, x: 500000, y: 500000, vx: 40000, vy: 0 },
        Boid { id: 1, x: 560000, y: 500000, vx: 0, vy: 0 },
    ];
    let mut quick = default_params();
    quick.max_speed = 10000;
    quick.min_speed = 5000;

    // replacing before a tick is the same as having started with the
    // replacement
    let mut replaced = Simulation { boids: seed.clone(), parameters: default_params() };
    replaced.update_params(quick);
    replaced.update();
    let mut started = Simulation { boids: seed.clone(), parameters: quick };
    started.update();
    assert_eq!(replaced.boids, started.boids);

    // replacing after a tick does not reach back into that tick
    let mut late = Simulation { boids: seed.clone(), parameters: default_params() };
    late.update();
    let after_tick = late.boids.clone();
    late.update_params(quick);
    assert_eq!(late.boids, after_tick);
    let mut plain = Simulation { boids: seed, parameters: default_params() };
    plain.update();
    assert_eq!(late.boids, plain.boids);
}

#[test]
fn position_exposes_the_coordinates() {
    let b = Boid { id: 3, x: -70000, y: 910000, vx: 5, vy: -5 };
    assert_eq!(b.position(), (-70000, 910000));
}

#[test]
fn snapshot_reports_positions_without_mutating() {
    let mut s = Simulation::initialize(3);
    s.update();
    let before = s.boids.clone();
    let v1 = s.snapshot();
    let v2 = s.snapshot();
    assert_eq!(v1, v2);
    assert_eq!(s.boids, before);
    assert_eq!(v1.len(), s.boids.len());
    for k in 0..s.boids.len() {
        assert_eq!(v1[k], (s.boids[k].x, s.boids[k].y));
    }
}
