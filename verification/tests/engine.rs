//! Tests for the fixed-point flocking engine.

use boids::boid::Boid;
use boids::config::Config;
use boids::fixed::{isqrt, isqrt_ceil, sin_fp, SCALE};
use boids::simulation::{LeaderBird, PatrolDirection, Simulation};
use boids::vec2::Vec2;

fn default_config() -> Config {
    Config::default()
}

fn still_boid(x: i64, y: i64) -> Boid {
    Boid {
        position: Vec2 { x, y },
        velocity: Vec2 { x: 0, y: 0 },
        acceleration: Vec2 { x: 0, y: 0 },
        is_leader: false,
    }
}

#[test]
fn vector_arithmetic_is_exact() {
    let a = Vec2 { x: 1500, y: -2500 };
    let b = Vec2 { x: 500, y: 1000 };
    let s = a.add(b);
    assert_eq!((s.x, s.y), (2000, -1500));
    let d = a.sub(b);
    assert_eq!((d.x, d.y), (1000, -3500));
    let n = a.neg();
    assert_eq!((n.x, n.y), (-1500, 2500));
    // scale by 2.5 (2500 thousandths): 1500 * 2500 / 1000 = 3750
    let sc = a.scale(2500);
    assert_eq!((sc.x, sc.y), (3750, -6250));
    let dc = a.div_count(2);
    assert_eq!((dc.x, dc.y), (750, -1250));
    // fixed-point division by 0.5 (500 thousandths) doubles the vector
    let df = a.div_fp(500);
    assert_eq!((df.x, df.y), (3000, -5000));
}

#[test]
fn integer_square_roots_bracket() {
    assert_eq!(isqrt(0), 0);
    assert_eq!(isqrt(1), 1);
    assert_eq!(isqrt(2_000_000), 1414);
    assert_eq!(isqrt(25_000_000), 5000);
    assert_eq!(isqrt_ceil(25_000_000), 5000);
    assert_eq!(isqrt_ceil(2_000_000), 1415);
}

#[test]
fn magnitude_and_distance_are_floor_roots() {
    let v = Vec2 { x: 3000, y: 4000 };
    assert_eq!(v.magnitude_squared(), 25_000_000);
    assert_eq!(v.magnitude(), 5000);
    let o = Vec2 { x: 0, y: 0 };
    assert_eq!(o.distance_to(&Vec2 { x: 300, y: 400 }), 500);
    assert_eq!(Vec2 { x: 1000, y: 1000 }.magnitude(), 1414);
}

#[test]
fn normalize_zero_vector_is_zero() {
    // normalizing the zero vector must return the exact zero vector
    let z = Vec2 { x: 0, y: 0 };
    let n = z.normalize();
    assert_eq!((n.x, n.y), (0, 0));
}

#[test]
fn normalize_scales_to_one_unit() {
    let v = Vec2 { x: 3000, y: 4000 };
    let n = v.normalize();
    assert_eq!((n.x, n.y), (600, 800));
    assert_eq!(n.magnitude_squared(), SCALE * SCALE);
    let w = Vec2 { x: -3000, y: 4000 }.normalize();
    assert_eq!((w.x, w.y), (-600, 800));
}

#[test]
fn limit_keeps_short_vectors_and_caps_long_ones() {
    let short = Vec2 { x: 300, y: 400 };
    let kept = short.limit(1000);
    assert_eq!((kept.x, kept.y), (300, 400));
    let long = Vec2 { x: 3000, y: 4000 };
    let capped = long.limit(1000);
    assert_eq!((capped.x, capped.y), (600, 800));
    assert!(capped.magnitude_squared() <= 1000 * 1000);
}

#[test]
fn random_point_stays_inside_its_rectangle() {
    // the one-cell rectangle admits only the origin
    let p = Vec2::random(1, 1);
    assert_eq!((p.x, p.y), (0, 0));
    for _ in 0..100 {
        let q = Vec2::random(80_000, 24_000);
        assert!(0 <= q.x && q.x < 80_000);
        assert!(0 <= q.y && q.y < 24_000);
    }
}

#[test]
fn random_unit_stays_within_one_unit_per_axis() {
    for _ in 0..100 {
        let u = Vec2::random_unit();
        assert!(-SCALE <= u.x && u.x <= SCALE);
        assert!(-SCALE <= u.y && u.y <= SCALE);
    }
}

#[test]
fn sine_approximation_hits_known_points() {
    assert_eq!(sin_fp(0), 0);
    // near the peak at a quarter turn the rational approximation gives 999
    assert_eq!(sin_fp(1570), 999);
    // odd symmetry around half a turn
    assert_eq!(sin_fp(3141 + 1570), -999);
    for t in 0..6282 {
        let s = sin_fp(t);
        assert!(-SCALE <= s && s <= SCALE);
    }
}

#[test]
fn applied_force_integrates_once() {
    // an agent at (10, 10) with zero velocity, pushed by force (1, 0),
    // moves to (11, 10) at velocity (1, 0) under max_speed 1.5
    let config = default_config();
    assert_eq!(config.max_speed, 1500);
    let mut b = still_boid(10_000, 10_000);
    b.apply_force(Vec2 { x: 1000, y: 0 });
    b.update(&config);
    assert_eq!((b.velocity.x, b.velocity.y), (1000, 0));
    assert_eq!((b.position.x, b.position.y), (11_000, 10_000));
    assert_eq!((b.acceleration.x, b.acceleration.y), (0, 0));
}

#[test]
fn boundary_reflects_position_and_velocity() {
    // an agent at x = 0.5 moving left ends on the margin moving right,
    // with the speed magnitude preserved
    let config = default_config();
    let mut b = still_boid(500, 10_000);
    b.velocity.x = -300;
    b.update(&config);
    assert_eq!(b.position.x, 1000);
    assert_eq!(b.velocity.x, 300);
    assert_eq!(b.position.y, 10_000);
}

#[test]
fn separation_pushes_agents_apart() {
    // two agents half a unit apart along x, both inside the separation
    // radius of 3 units: each force points away and stays within max_force
    let config = default_config();
    let sim = Simulation {
        boids: vec![still_boid(10_000, 10_000), still_boid(10_500, 10_000)],
        config,
        leader: None,
    };
    let f0 = sim.separation(0);
    let f1 = sim.separation(1);
    assert_eq!((f0.x, f0.y), (-80, 0));
    assert_eq!((f1.x, f1.y), (80, 0));
    let mf = sim.config.max_force;
    assert!(f0.x * f0.x + f0.y * f0.y <= mf * mf);
    assert!(f1.x * f1.x + f1.y * f1.y <= mf * mf);
}

#[test]
fn rules_return_exact_zero_without_neighbors() {
    // fifty units apart: far outside every rule radius
    let config = default_config();
    let sim = Simulation {
        boids: vec![still_boid(10_000, 10_000), still_boid(60_000, 10_000)],
        config,
        leader: None,
    };
    for i in 0..2 {
        let s = sim.separation(i);
        let a = sim.alignment(i);
        let c = sim.cohesion(i);
        assert_eq!((s.x, s.y), (0, 0));
        assert_eq!((a.x, a.y), (0, 0));
        assert_eq!((c.x, c.y), (0, 0));
    }
}

#[test]
fn cohesion_seeks_the_neighbor_centroid() {
    // neighbor 2 units to the right: desired = (1500, 0), minus zero
    // velocity, capped from 1500 down to max_force 80
    let config = default_config();
    let sim = Simulation {
        boids: vec![still_boid(10_000, 10_000), still_boid(12_000, 10_000)],
        config,
        leader: None,
    };
    let c0 = sim.cohesion(0);
    assert_eq!((c0.x, c0.y), (80, 0));
}

#[test]
fn patrol_force_is_zero_at_the_target() {
    let config = default_config();
    let leader = LeaderBird::new(0, &config);
    assert_eq!(leader.target_x, 72_000);
    let mut lb = still_boid(72_000, 12_000);
    lb.is_leader = true;
    let sim = Simulation { boids: vec![lb], config, leader: Some(leader) };
    let f = sim.leader_patrol_force(0);
    assert_eq!((f.x, f.y), (0, 0));
}

#[test]
fn patrol_force_steers_toward_the_target() {
    let config = default_config();
    let leader = LeaderBird::new(0, &config);
    let mut lb = still_boid(0, 12_000);
    lb.is_leader = true;
    lb.velocity.x = 900;
    let sim = Simulation { boids: vec![lb], config, leader: Some(leader) };
    let f = sim.leader_patrol_force(0);
    assert_eq!((f.x, f.y), (80, 0));
}

#[test]
fn follow_force_is_zero_at_the_trailing_point() {
    // the trailing point sits 8 units behind the leader's heading
    let config = default_config();
    let mut lb = still_boid(50_000, 12_000);
    lb.is_leader = true;
    lb.velocity.x = 900;
    let follower = still_boid(42_000, 12_000);
    let sim = Simulation {
        boids: vec![lb, follower],
        config,
        leader: Some(LeaderBird::new(0, &config)),
    };
    let f = sim.follow_leader_force(1);
    assert_eq!((f.x, f.y), (0, 0));
}

#[test]
fn leader_flips_right_to_left_at_nine_tenths() {
    let mut sim = Simulation::new();
    assert!(matches!(
        sim.leader.as_ref().unwrap().direction,
        PatrolDirection::ToRight
    ));
    // width 80: the rightward threshold is x = 72
    sim.boids[0].position.x = 79_000;
    sim.update();
    let l = sim.leader.as_ref().unwrap();
    assert!(matches!(l.direction, PatrolDirection::ToLeft));
    assert_eq!(l.target_x, 8_000);
}

#[test]
fn leader_keeps_direction_inside_the_span() {
    let mut sim = Simulation::new();
    sim.boids[0].position.x = 50_000;
    sim.update();
    let l = sim.leader.as_ref().unwrap();
    assert!(matches!(l.direction, PatrolDirection::ToRight));
    assert_eq!(l.target_x, 72_000);
}

#[test]
fn leader_flips_left_to_right_at_one_tenth() {
    let mut sim = Simulation::new();
    sim.leader.as_mut().unwrap().direction = PatrolDirection::ToLeft;
    sim.leader.as_mut().unwrap().target_x = 8_000;
    sim.boids[0].position.x = 7_000;
    sim.update();
    let l = sim.leader.as_ref().unwrap();
    assert!(matches!(l.direction, PatrolDirection::ToRight));
    assert_eq!(l.target_x, 72_000);
}

#[test]
fn sine_phase_accumulates_monotonically() {
    // the phase gains the frequency every tick and is never reset
    let mut sim = Simulation::new();
    let mut expected: i64 = 0;
    for _ in 0..10 {
        sim.update();
        expected += 20;
        assert_eq!(sim.leader.as_ref().unwrap().sine_time, expected);
    }
}

#[test]
fn every_tick_respects_speed_and_margins() {
    let mut sim = Simulation::new();
    let ms = sim.config.max_speed;
    for _ in 0..50 {
        sim.update();
        for b in &sim.boids {
            let v = b.velocity;
            assert!(v.x * v.x + v.y * v.y <= ms * ms);
            assert!(1000 <= b.position.x && b.position.x <= sim.config.width - 1000);
            assert!(1000 <= b.position.y && b.position.y <= sim.config.height - 1000);
        }
    }
}

#[test]
fn new_builds_the_configured_flock() {
    let sim = Simulation::new();
    assert_eq!(sim.boids.len(), 25);
    assert!(sim.boids[0].is_leader);
    // the leader's fixed starting pose: (width/10, height/2), moving right
    // at six tenths of the top speed
    assert_eq!(sim.boids[0].position.x, 8_000);
    assert_eq!(sim.boids[0].position.y, 12_000);
    assert_eq!(sim.boids[0].velocity.x, 900);
    assert_eq!(sim.boids[0].velocity.y, 0);
    for b in &sim.boids[1..] {
        assert!(!b.is_leader);
        assert!(0 <= b.position.x && b.position.x < sim.config.width);
        assert!(0 <= b.position.y && b.position.y < sim.config.height);
    }
    let l = sim.leader.as_ref().unwrap();
    assert_eq!(l.boid_index, 0);
    assert_eq!(l.sine_time, 0);
    assert_eq!(l.sine_frequency, 20);
}

#[test]
fn reset_rebuilds_the_population() {
    let mut sim = Simulation::new();
    sim.resize(40);
    sim.reset();
    assert_eq!(sim.boids.len(), 25);
    assert!(sim.boids[0].is_leader);
    assert_eq!(sim.boids[0].position.x, 8_000);
    assert_eq!(sim.boids[0].position.y, 12_000);
    assert_eq!(sim.boids[0].velocity.x, 900);
    assert_eq!(sim.leader.as_ref().unwrap().sine_time, 0);
}

#[test]
fn resize_grows_to_the_requested_count() {
    let mut sim = Simulation::new();
    let leader_pos = sim.boids[0].position;
    sim.resize(40);
    assert_eq!(sim.boids.len(), 40);
    assert!(sim.boids[0].is_leader);
    assert_eq!(sim.boids[0].position.x, leader_pos.x);
    assert_eq!(sim.boids[0].position.y, leader_pos.y);
}

#[test]
fn resize_shrinks_from_thirty_to_ten() {
    let mut sim = Simulation::new();
    sim.resize(30);
    assert_eq!(sim.boids.len(), 30);
    sim.resize(10);
    assert_eq!(sim.boids.len(), 10);
    assert!(sim.boids[0].is_leader);
}

#[test]
fn resize_to_zero_keeps_the_population() {
    let mut sim = Simulation::new();
    sim.resize(0);
    assert_eq!(sim.boids.len(), 25);
    assert!(sim.boids[0].is_leader);
}

#[test]
fn terminal_sizing_follows_area_and_density() {
    // an 80 x 24 cell terminal: canvas 60 x 24 units, 1440 cells of area,
    // eleven agents raw, clamped up to the minimum of 15; density
    // multiplier clamps low, so the separation radius is 1.5 units
    let c = Config::with_terminal_size(80, 24);
    assert_eq!(c.width, 60_000);
    assert_eq!(c.height, 24_000);
    assert_eq!(c.num_boids, 15);
    assert_eq!(c.separation_radius, 1_500);
    assert_eq!(c.max_speed, 1_500);
    assert_eq!(c.max_force, 80);
    // a tiny terminal falls back to the 20 x 10 unit floor
    let t = Config::with_terminal_size(1, 1);
    assert_eq!(t.width, 20_000);
    assert_eq!(t.height, 10_000);
    assert_eq!(t.num_boids, 15);
}

#[test]
fn new_with_size_matches_its_config() {
    let sim = Simulation::new_with_size(120, 40);
    assert_eq!(sim.boids.len(), sim.config.num_boids);
    assert!(sim.boids[0].is_leader);
}

#[test]
fn adjust_count_adopts_the_new_terminal() {
    let mut sim = Simulation::new();
    sim.adjust_boid_count_for_size(200, 60);
    assert_eq!(sim.config, Config::with_terminal_size(200, 60));
    assert_eq!(sim.boids.len(), sim.config.num_boids);
    assert!(sim.boids[0].is_leader);
    // the patrol state follows the new arena: width 150 units, rightward
    let l = sim.leader.as_ref().unwrap();
    assert_eq!(l.boid_index, 0);
    assert_eq!(l.target_x, sim.config.width * 9 / 10);
    assert_eq!(l.sine_amplitude, sim.config.height * 3 / 10);
}

#[test]
fn set_bounds_only_moves_the_walls() {
    let mut sim = Simulation::new();
    let before = sim.boids.len();
    sim.set_bounds(100_000, 50_000);
    assert_eq!(sim.config.width, 100_000);
    assert_eq!(sim.config.height, 50_000);
    assert_eq!(sim.boids.len(), before);
    assert_eq!(sim.config.num_boids, 25);
}

#[test]
fn direction_glyphs_cover_all_sectors() {
    let glyph = |x: i64, y: i64| {
        let mut b = still_boid(10_000, 10_000);
        b.velocity = Vec2 { x, y };
        b.get_direction_char()
    };
    assert_eq!(glyph(1000, 0), '>');
    assert_eq!(glyph(-1000, 0), '<');
    assert_eq!(glyph(0, 1000), 'v');
    assert_eq!(glyph(0, -1000), '^');
    assert_eq!(glyph(1000, 1000), '\\');
    assert_eq!(glyph(1000, -1000), '\\');
    assert_eq!(glyph(-1000, 1000), '/');
    assert_eq!(glyph(-1000, -1000), '/');
    // a shallow slope still counts as horizontal
    assert_eq!(glyph(1000, 414), '>');
    let mut leader = still_boid(10_000, 10_000);
    leader.is_leader = true;
    assert_eq!(leader.get_direction_char(), '★');
}
