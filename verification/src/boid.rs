//! One simulated agent: kinematic state, integration and boundary handling.

use vstd::prelude::*;

verus! {

use crate::config::Config;
use crate::fixed::MARGIN;
use crate::fixed::SCALE;
use crate::fixed::TAU_FP;
use crate::fixed::spec_cos;
use crate::fixed::spec_sin;
use crate::fixed::abs_i64;
use crate::fixed::lemma_abs_mul_le;
use crate::vec2::Vec2;
use crate::vec2::vec2i;
use vstd::arithmetic::div_mod::lemma_div_is_ordered;
use vstd::arithmetic::div_mod::lemma_div_multiples_vanish;
use vstd::arithmetic::div_mod::lemma_div_pos_is_pos;
use vstd::math::abs;

/// One agent of the flock.
#[derive(Debug, Clone, Copy)]
pub struct Boid {
    pub position: Vec2,
    pub velocity: Vec2,
    pub acceleration: Vec2,
    pub is_leader: bool,
}

impl Boid {
    /// State bounds kept between ticks: the position inside a fixed box that
    /// contains every legal arena, the velocity within a thousand cells per
    /// tick, and the acceleration settled back to zero.
    pub open spec fn wf(self) -> bool {
        &&& self.position.in_bounds(100_000_000)
        &&& self.velocity.in_bounds(1_000_000)
        &&& self.acceleration.is_zero()
    }

    /// One axis of the reflective boundary clamp: entering the near margin
    /// pushes the agent back onto it and turns that velocity component
    /// outward; the far margin mirrors it.
    pub open spec fn spec_bounce_axis(p: int, v: int, limit: int) -> (int, int) {
        if p < MARGIN {
            (MARGIN as int, abs(v) as int)
        } else if p > limit - MARGIN {
            (limit - MARGIN, -(abs(v) as int))
        } else {
            (p, v)
        }
    }

    /// Both axes of the reflective boundary clamp.
    pub open spec fn spec_bounce(p: Vec2, v: Vec2, c: Config) -> (Vec2, Vec2) {
        let bx = Boid::spec_bounce_axis(p.x as int, v.x as int, c.width as int);
        let by = Boid::spec_bounce_axis(p.y as int, v.y as int, c.height as int);
        (vec2i(bx.0, by.0), vec2i(bx.1, by.1))
    }

    /// The whole integration step: accelerate, cap the speed, move, settle
    /// the acceleration, then reflect off the arena margins.
    pub open spec fn spec_step(self, c: Config) -> Boid {
        let v2 = self.velocity.spec_add(self.acceleration).spec_limit(c.max_speed as int);
        let p1 = self.position.spec_add(v2);
        let pv = Boid::spec_bounce(p1, v2, c);
        Boid {
            position: pv.0,
            velocity: pv.1,
            acceleration: Vec2 { x: 0, y: 0 },
            is_leader: self.is_leader,
        }
    }

    /// The glyph drawn for this agent: a fixed star for the leader, else one
    /// of eight sector glyphs chosen by the heading's slope, with sector
    /// bounds at odd multiples of one eighth of a half turn.
    pub open spec fn spec_direction_char(self) -> char {
        if self.is_leader {
            '★'
        } else {
            let ax = abs(self.velocity.x as int) as int;
            let ay = abs(self.velocity.y as int) as int;
            if 1000 * ay <= 414 * ax {
                if self.velocity.x >= 0 {
                    '>'
                } else {
                    '<'
                }
            } else if 1000 * ay >= 2414 * ax {
                if self.velocity.y >= 0 {
                    'v'
                } else {
                    '^'
                }
            } else if self.velocity.x >= 0 {
                '\\'
            } else {
                '/'
            }
        }
    }

    /// A flock member at a random position inside the arena, heading a
    /// random way at half the top speed.
    pub fn new(config: &Config) -> (b: Boid)
        requires
            config.wf(),
        ensures
            b.wf(),
            !b.is_leader,
            b.acceleration.is_zero(),
            0 <= b.position.x < config.width,
            0 <= b.position.y < config.height,
            b.velocity.spec_mag_sq() <= config.max_speed * config.max_speed,
            exists|t: int|
                0 <= t < TAU_FP && b.velocity == (vec2i(spec_cos(t), spec_sin(t))).spec_scale(
                    config.max_speed as int / 2,
                ),
    {
        let position = Vec2::random(config.width, config.height);
        let heading = Vec2::random_unit();
        let half_speed: i64 = config.max_speed / 2;
        let velocity = heading.scale(half_speed);
        proof {
            lemma_abs_mul_le(heading.x as int, half_speed as int, SCALE as int, half_speed as int);
            lemma_abs_mul_le(heading.y as int, half_speed as int, SCALE as int, half_speed as int);
            lemma_div_is_ordered(
                abs(heading.x as int) * half_speed,
                (SCALE as int) * half_speed,
                SCALE as int,
            );
            lemma_div_is_ordered(
                abs(heading.y as int) * half_speed,
                (SCALE as int) * half_speed,
                SCALE as int,
            );
            lemma_div_multiples_vanish(half_speed as int, SCALE as int);
            lemma_div_pos_is_pos(abs(heading.x as int) * half_speed, SCALE as int);
            lemma_div_pos_is_pos(abs(heading.y as int) * half_speed, SCALE as int);
            assert(abs(velocity.x as int) <= half_speed);
            assert(abs(velocity.y as int) <= half_speed);
            assert(velocity.spec_mag_sq() <= config.max_speed * config.max_speed)
                by (nonlinear_arith)
                requires
                    abs(velocity.x as int) <= half_speed,
                    abs(velocity.y as int) <= half_speed,
                    0 <= 2 * half_speed <= config.max_speed,
            ;
            let t0 = choose|t: int|
                0 <= t < TAU_FP && heading.x as int == spec_cos(t) && heading.y as int
                    == spec_sin(t);
            assert(heading == vec2i(spec_cos(t0), spec_sin(t0)));
            assert(velocity == (vec2i(spec_cos(t0), spec_sin(t0))).spec_scale(
                half_speed as int,
            ));
        }
        Boid { position, velocity, acceleration: Vec2::zero(), is_leader: false }
    }

    /// The scripted leader, spawned a tenth of the way into the arena at mid
    /// height, heading right at six tenths of the top speed.
    pub fn new_leader(config: &Config) -> (b: Boid)
        requires
            config.wf(),
        ensures
            b.wf(),
            b.is_leader,
            b.position.x as int == config.width as int / 10,
            b.position.y as int == config.height as int / 2,
            b.velocity.x as int == config.max_speed as int * 6 / 10,
            b.velocity.y == 0,
            b.velocity.spec_mag_sq() <= config.max_speed * config.max_speed,
    {
        let px: i64 = config.width / 10;
        let py: i64 = config.height / 2;
        let vx: i64 = (config.max_speed * 6) / 10;
        proof {
            lemma_div_pos_is_pos(config.width as int, 10);
            lemma_div_pos_is_pos(config.height as int, 2);
            lemma_div_pos_is_pos(config.max_speed as int * 6, 10);
            lemma_div_is_ordered(config.width as int, 100_000_000, 10);
            lemma_div_is_ordered(config.height as int, 100_000_000, 2);
            lemma_div_is_ordered(config.max_speed as int * 6, config.max_speed as int * 10, 10);
            lemma_div_multiples_vanish(config.max_speed as int, 10);
            assert(vx * vx <= config.max_speed * config.max_speed) by (nonlinear_arith)
                requires
                    0 <= vx <= config.max_speed,
            ;
        }
        Boid {
            position: Vec2 { x: px, y: py },
            velocity: Vec2 { x: vx, y: 0 },
            acceleration: Vec2::zero(),
            is_leader: true,
        }
    }

    /// Accumulate a force additively; several forces may combine before one
    /// integration step.
    pub fn apply_force(&mut self, force: Vec2)
        requires
            i64::MIN <= old(self).acceleration.x + force.x <= i64::MAX,
            i64::MIN <= old(self).acceleration.y + force.y <= i64::MAX,
        ensures
            final(self).acceleration == old(self).acceleration.spec_add(force),
            final(self).position == old(self).position,
            final(self).velocity == old(self).velocity,
            final(self).is_leader == old(self).is_leader,
    {
        let a = self.acceleration.add(force);
        self.acceleration = a;
    }

    /// One integration step: velocity gains the accumulated acceleration and
    /// is capped at the top speed, the position moves by the new velocity,
    /// the acceleration resets, and the arena margins reflect the agent.
    pub fn update(&mut self, config: &Config)
        requires
            config.wf(),
            old(self).position.in_bounds(100_000_000),
            old(self).velocity.in_bounds(100_000_000),
            old(self).acceleration.in_bounds(100_000_000),
        ensures
            *final(self) == old(self).spec_step(*config),
            final(self).is_leader == old(self).is_leader,
            final(self).acceleration.is_zero(),
            final(self).velocity.spec_mag_sq() <= config.max_speed * config.max_speed,
            final(self).velocity.in_bounds(config.max_speed as int),
            MARGIN <= final(self).position.x <= config.width - MARGIN,
            MARGIN <= final(self).position.y <= config.height - MARGIN,
            final(self).wf(),
    {
        let v1 = self.velocity.add(self.acceleration);
        let v2 = v1.limit(config.max_speed);
        let p1 = self.position.add(v2);
        self.velocity = v2;
        self.position = p1;
        self.acceleration = Vec2::zero();
        self.bounce_off_boundaries(config);
    }

    /// Reflect off the four arena margins, axis by axis: the position is
    /// clamped onto the margin and the velocity component on that axis is
    /// turned back into the arena, keeping its magnitude.
    fn bounce_off_boundaries(&mut self, config: &Config)
        requires
            config.wf(),
            old(self).position.in_bounds(1_000_000_000),
            old(self).velocity.in_bounds(1_000_000_000),
        ensures
            final(self).position == Boid::spec_bounce(
                old(self).position,
                old(self).velocity,
                *config,
            ).0,
            final(self).velocity == Boid::spec_bounce(
                old(self).position,
                old(self).velocity,
                *config,
            ).1,
            final(self).acceleration == old(self).acceleration,
            final(self).is_leader == old(self).is_leader,
            MARGIN <= final(self).position.x <= config.width - MARGIN,
            MARGIN <= final(self).position.y <= config.height - MARGIN,
            abs(final(self).velocity.x as int) == abs(old(self).velocity.x as int),
            abs(final(self).velocity.y as int) == abs(old(self).velocity.y as int),
            final(self).velocity.spec_mag_sq() == old(self).velocity.spec_mag_sq(),
    {
        if self.position.x < MARGIN {
            self.position.x = MARGIN;
            let vx = abs_i64(self.velocity.x);
            self.velocity.x = vx;
        } else if self.position.x > config.width - MARGIN {
            self.position.x = config.width - MARGIN;
            let vx = abs_i64(self.velocity.x);
            self.velocity.x = -vx;
        }
        if self.position.y < MARGIN {
            self.position.y = MARGIN;
            let vy = abs_i64(self.velocity.y);
            self.velocity.y = vy;
        } else if self.position.y > config.height - MARGIN {
            self.position.y = config.height - MARGIN;
            let vy = abs_i64(self.velocity.y);
            self.velocity.y = -vy;
        }
        proof {
            let nvx = self.velocity.x as int;
            let nvy = self.velocity.y as int;
            let ovx = old(self).velocity.x as int;
            let ovy = old(self).velocity.y as int;
            assert(nvx * nvx + nvy * nvy == ovx * ovx + ovy * ovy) by (nonlinear_arith)
                requires
                    abs(nvx) == abs(ovx),
                    abs(nvy) == abs(ovy),
            ;
        }
    }

    /// The glyph the renderer draws for this agent; a pure function of the
    /// velocity and the leader flag.
    pub fn get_direction_char(&self) -> (r: char)
        requires
            self.velocity.in_bounds(1_000_000_000),
        ensures
            r == self.spec_direction_char(),
    {
        if self.is_leader {
            return '★';
        }
        let ax = abs_i64(self.velocity.x);
        let ay = abs_i64(self.velocity.y);
        if 1000 * ay <= 414 * ax {
            if self.velocity.x >= 0 {
                '>'
            } else {
                '<'
            }
        } else if 1000 * ay >= 2414 * ax {
            if self.velocity.y >= 0 {
                'v'
            } else {
                '^'
            }
        } else if self.velocity.x >= 0 {
            '\\'
        } else {
            '/'
        }
    }
}

} // verus!
