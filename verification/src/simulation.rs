//! The flock: steering rules, the leader's patrol state machine, and the
//! two-phase per-tick orchestration.

use vstd::prelude::*;

verus! {

use crate::boid::Boid;
use crate::config::Config;
use crate::fixed::MARGIN;
use crate::fixed::SCALE;
use crate::fixed::TAU_FP;
use crate::fixed::floor_sqrt;
use crate::fixed::lemma_abs_mul_le;
use crate::fixed::lemma_div_chain_bound;
use crate::fixed::mul_div;
use crate::fixed::mul_div_i64;
use crate::fixed::sin_fp;
use crate::fixed::spec_cos;
use crate::fixed::spec_sin;
use crate::vec2::Vec2;
use crate::vec2::vec2i;
use vstd::arithmetic::div_mod::lemma_div_is_ordered;
use vstd::arithmetic::div_mod::lemma_div_multiples_vanish;
use vstd::arithmetic::div_mod::lemma_div_nonincreasing;
use vstd::arithmetic::div_mod::lemma_div_pos_is_pos;
use vstd::arithmetic::div_mod::lemma_mod_division_less_than_divisor;
use vstd::math::abs;

/// The monotone sine phase saturates here: a machine bound (`i64`) that a
/// tick every millisecond would take over a hundred million years to reach.
pub const SINE_PHASE_CAP: i64 = 4_000_000_000_000_000_000;

/// Which way the leader is patrolling.
#[derive(Debug, Clone, Copy, PartialEq, Eq, Structural)]
pub enum PatrolDirection {
    ToRight,
    ToLeft,
}

/// The leader's scripted patrol state. `boid_index` is a non-owning
/// reference into the agent list and is bounds-checked before every use.
/// `sine_time` is a monotone phase accumulator, never reset except on a
/// full reset; it is reduced modulo one full turn only where the sine is
/// evaluated, and saturates only at `SINE_PHASE_CAP`.
#[derive(Debug, Clone, Copy)]
pub struct LeaderBird {
    pub boid_index: usize,
    pub direction: PatrolDirection,
    pub target_x: i64,
    pub sine_time: i64,
    pub sine_frequency: i64,
    pub sine_amplitude: i64,
}

impl LeaderBird {
    /// The monotone sine phase stays within the machine cap and the patrol
    /// targets inside the box that holds every legal arena.
    pub open spec fn wf(self) -> bool {
        &&& 0 <= self.sine_time <= SINE_PHASE_CAP
        &&& 0 <= self.sine_frequency <= TAU_FP
        &&& 0 <= self.sine_amplitude <= 100_000_000
        &&& 0 <= self.target_x <= 100_000_000
    }

    /// A fresh patrol: rightward, aiming at nine tenths of the width, with
    /// the sine phase at zero and an amplitude of three tenths of the height.
    pub fn new(boid_index: usize, config: &Config) -> (l: LeaderBird)
        requires
            config.wf(),
        ensures
            l.wf(),
            l.boid_index == boid_index,
            l.direction == PatrolDirection::ToRight,
            l.target_x as int == config.width as int * 9 / 10,
            l.sine_time == 0,
            l.sine_frequency == 20,
            l.sine_amplitude as int == config.height as int * 3 / 10,
    {
        proof {
            lemma_div_pos_is_pos(config.width as int * 9, 10);
            lemma_div_is_ordered(config.width as int * 9, 900_000_000, 10);
            lemma_div_pos_is_pos(config.height as int * 3, 10);
            lemma_div_is_ordered(config.height as int * 3, 300_000_000, 10);
        }
        LeaderBird {
            boid_index,
            direction: PatrolDirection::ToRight,
            target_x: (config.width * 9) / 10,
            sine_time: 0,
            sine_frequency: 20,
            sine_amplitude: (config.height * 3) / 10,
        }
    }
}

/// The exec distance between two points: the floor integer square root of
/// the squared distance.
pub open spec fn spec_dist(a: Vec2, b: Vec2) -> int {
    floor_sqrt(a.spec_dist_sq(b))
}

/// `j` names a neighbor of `i` within `radius`: a different agent at a
/// nonzero distance strictly inside the radius.
pub open spec fn is_neighbor(boids: Seq<Boid>, i: int, j: int, radius: int) -> bool {
    &&& 0 <= j < boids.len()
    &&& j != i
    &&& 0 < spec_dist(boids[i].position, boids[j].position) < radius
}

/// Some agent is a neighbor of `i` within `radius`.
pub open spec fn has_neighbor(boids: Seq<Boid>, i: int, radius: int) -> bool {
    exists|j: int| is_neighbor(boids, i, j, radius)
}

/// A steering force within the configured force cap.
pub open spec fn force_ok(f: Vec2, c: Config) -> bool {
    &&& f.in_bounds(c.max_force as int)
    &&& f.spec_mag_sq() <= c.max_force * c.max_force
}

/// The flock simulation: the agent list, the parameters, and the optional
/// leader patrol state.
pub struct Simulation {
    pub boids: Vec<Boid>,
    pub config: Config,
    pub leader: Option<LeaderBird>,
}

impl Simulation {
    /// The whole-simulation invariant: valid parameters, a bounded agent
    /// list whose one leader sits at index 0, every agent within its state
    /// bounds, and a patrol state that points at index 0.
    pub open spec fn wf(self) -> bool {
        &&& self.config.wf()
        &&& 1 <= self.boids@.len() <= 10_000
        &&& forall|i: int|
            0 <= i < self.boids@.len() ==> ((#[trigger] self.boids@[i]).is_leader <==> i == 0)
        &&& forall|i: int| 0 <= i < self.boids@.len() ==> (#[trigger] self.boids@[i]).wf()
        &&& match self.leader {
            Option::Some(l) => l.wf() && l.boid_index == 0,
            Option::None => true,
        }
    }

    /// The bounds the steering rules read: valid parameters, a bounded
    /// agent count, and every agent's position and velocity inside fixed
    /// boxes. Implied by the whole-simulation invariant `wf`.
    pub open spec fn bounded(self) -> bool {
        &&& self.config.wf()
        &&& self.boids@.len() <= 10_000
        &&& forall|i: int|
            0 <= i < self.boids@.len() ==> ((#[trigger] self.boids@[i]).position.in_bounds(
                100_000_000,
            ) && self.boids@[i].velocity.in_bounds(1_000_000))
    }

    /// Steering toward a fixed target: desired velocity at full speed toward
    /// the target, minus the current velocity, capped at the force limit.
    pub open spec fn spec_seek(boid: Boid, target: Vec2, c: Config) -> Vec2 {
        target.spec_sub(boid.position).spec_normalize().spec_scale(c.max_speed as int).spec_sub(
            boid.velocity,
        ).spec_limit(c.max_force as int)
    }

    /// The separation contribution of agent `j` on agent `i`: the offset
    /// away from `j`, normalized, then divided by the distance so that
    /// closer neighbors push harder.
    pub open spec fn sep_term(boids: Seq<Boid>, i: int, j: int) -> Vec2 {
        boids[i].position.spec_sub(boids[j].position).spec_normalize().spec_div_fp(
            spec_dist(boids[i].position, boids[j].position),
        )
    }

    /// Separation accumulator over the first `j` agents: the summed
    /// contributions and the neighbor count.
    pub open spec fn sep_accum(boids: Seq<Boid>, i: int, c: Config, j: int) -> (Vec2, int)
        decreases j,
    {
        if j <= 0 {
            (Vec2 { x: 0, y: 0 }, 0)
        } else {
            let prev = Self::sep_accum(boids, i, c, j - 1);
            if is_neighbor(boids, i, j - 1, c.separation_radius as int) {
                (prev.0.spec_add(Self::sep_term(boids, i, j - 1)), prev.1 + 1)
            } else {
                prev
            }
        }
    }

    /// The separation rule: average the accumulated contributions, steer at
    /// full speed along them, and cap the force; the exact zero vector when
    /// no neighbor lies within the separation radius.
    #[verifier::opaque]
    pub open spec fn spec_separation(boids: Seq<Boid>, i: int, c: Config) -> Vec2 {
        let sc = Self::sep_accum(boids, i, c, boids.len() as int);
        if sc.1 > 0 {
            sc.0.spec_div_count(sc.1).spec_normalize().spec_scale(c.max_speed as int).spec_sub(
                boids[i].velocity,
            ).spec_limit(c.max_force as int)
        } else {
            Vec2 { x: 0, y: 0 }
        }
    }

    /// Alignment accumulator over the first `j` agents: the summed neighbor
    /// velocities and the neighbor count.
    pub open spec fn align_accum(boids: Seq<Boid>, i: int, c: Config, j: int) -> (Vec2, int)
        decreases j,
    {
        if j <= 0 {
            (Vec2 { x: 0, y: 0 }, 0)
        } else {
            let prev = Self::align_accum(boids, i, c, j - 1);
            if is_neighbor(boids, i, j - 1, c.alignment_radius as int) {
                (prev.0.spec_add(boids[j - 1].velocity), prev.1 + 1)
            } else {
                prev
            }
        }
    }

    /// The alignment rule: steer at full speed along the average neighbor
    /// velocity, capped at the force limit; the exact zero vector when no
    /// neighbor lies within the alignment radius.
    #[verifier::opaque]
    pub open spec fn spec_alignment(boids: Seq<Boid>, i: int, c: Config) -> Vec2 {
        let sc = Self::align_accum(boids, i, c, boids.len() as int);
        if sc.1 > 0 {
            sc.0.spec_div_count(sc.1).spec_normalize().spec_scale(c.max_speed as int).spec_sub(
                boids[i].velocity,
            ).spec_limit(c.max_force as int)
        } else {
            Vec2 { x: 0, y: 0 }
        }
    }

    /// Cohesion accumulator over the first `j` agents: the summed neighbor
    /// positions and the neighbor count.
    pub open spec fn coh_accum(boids: Seq<Boid>, i: int, c: Config, j: int) -> (Vec2, int)
        decreases j,
    {
        if j <= 0 {
            (Vec2 { x: 0, y: 0 }, 0)
        } else {
            let prev = Self::coh_accum(boids, i, c, j - 1);
            if is_neighbor(boids, i, j - 1, c.cohesion_radius as int) {
                (prev.0.spec_add(boids[j - 1].position), prev.1 + 1)
            } else {
                prev
            }
        }
    }

    /// The cohesion rule: seek the centroid of the neighbors within the
    /// cohesion radius; the exact zero vector when there is none.
    #[verifier::opaque]
    pub open spec fn spec_cohesion(boids: Seq<Boid>, i: int, c: Config) -> Vec2 {
        let sc = Self::coh_accum(boids, i, c, boids.len() as int);
        if sc.1 > 0 {
            Self::spec_seek(boids[i], sc.0.spec_div_count(sc.1), c)
        } else {
            Vec2 { x: 0, y: 0 }
        }
    }

    /// Match the average velocity of every agent strictly closer than the
    /// alignment radius; the exact zero vector when there is no such
    /// neighbor.
    pub fn alignment(&self, index: usize) -> (f: Vec2)
        requires
            self.bounded(),
            (index as int) < self.boids@.len(),
        ensures
            f == Self::spec_alignment(self.boids@, index as int, self.config),
            !has_neighbor(
                self.boids@,
                index as int,
                self.config.alignment_radius as int,
            ) ==> f == (Vec2 { x: 0, y: 0 }),
            force_ok(f, self.config),
    {
        let ghost bs = self.boids@;
        let ghost c = self.config;
        proof {
            reveal(Simulation::spec_alignment);
        }
        let current: Boid = self.boids[index];
        let mut sum = Vec2::zero();
        let mut count: i64 = 0;
        let n = self.boids.len();
        let mut j: usize = 0;
        while j < n

            invariant
                self.bounded(),
                bs == self.boids@,
                c == self.config,
                (index as int) < bs.len(),
                current == bs[index as int],
                n == bs.len(),
                0 <= j <= n,
                0 <= count <= j,
                sum == Self::align_accum(bs, index as int, c, j as int).0,
                count as int == Self::align_accum(bs, index as int, c, j as int).1,
                abs(sum.x as int) <= count * 1_000_000,
                abs(sum.y as int) <= count * 1_000_000,
                (count == 0) <==> (forall|k: int|
                    0 <= k < j ==> !is_neighbor(bs, index as int, k, c.alignment_radius as int)),
            decreases n - j,
        {
            if j != index {
                let other: Boid = self.boids[j];
                let d = current.position.distance_to(&other.position);
                if d > 0 && d < self.config.alignment_radius {
                    proof {
                        assert(is_neighbor(bs, index as int, j as int, c.alignment_radius as int));
                    }
                    sum = sum.add(other.velocity);
                    count = count + 1;
                }
            }
            j = j + 1;
        }
        if count > 0 {
            let avg = sum.div_count(count);
            proof {
                lemma_div_is_ordered(abs(sum.x as int) as int, count * 1_000_000, count as int);
                lemma_div_is_ordered(abs(sum.y as int) as int, count * 1_000_000, count as int);
                lemma_div_multiples_vanish(1_000_000, count as int);
            }
            let avg_n = avg.normalize();
            let avg_s = avg_n.scale(self.config.max_speed);
            proof {
                lemma_div_chain_bound(
                    avg_s.x as int,
                    avg_n.x as int,
                    self.config.max_speed as int,
                    SCALE as int,
                    SCALE as int,
                    1_000_000,
                );
                lemma_div_chain_bound(
                    avg_s.y as int,
                    avg_n.y as int,
                    self.config.max_speed as int,
                    SCALE as int,
                    SCALE as int,
                    1_000_000,
                );
            }
            let rel = avg_s.sub(current.velocity);
            let f = rel.limit(self.config.max_force);
            proof {
                assert(0 <= c.max_force * c.max_force) by (nonlinear_arith)
                    requires
                        0 <= c.max_force,
                ;
            }
            f
        } else {
            proof {
                assert(0 <= c.max_force * c.max_force) by (nonlinear_arith)
                    requires
                        0 <= c.max_force,
                ;
            }
            Vec2::zero()
        }
    }

    /// Move toward the centroid of every agent strictly closer than the
    /// cohesion radius; the exact zero vector when there is no such
    /// neighbor.
    pub fn cohesion(&self, index: usize) -> (f: Vec2)
        requires
            self.bounded(),
            (index as int) < self.boids@.len(),
        ensures
            f == Self::spec_cohesion(self.boids@, index as int, self.config),
            !has_neighbor(
                self.boids@,
                index as int,
                self.config.cohesion_radius as int,
            ) ==> f == (Vec2 { x: 0, y: 0 }),
            force_ok(f, self.config),
    {
        let ghost bs = self.boids@;
        let ghost c = self.config;
        proof {
            reveal(Simulation::spec_cohesion);
        }
        let current: Boid = self.boids[index];
        let mut sum = Vec2::zero();
        let mut count: i64 = 0;
        let n = self.boids.len();
        let mut j: usize = 0;
        while j < n

            invariant
                self.bounded(),
                bs == self.boids@,
                c == self.config,
                (index as int) < bs.len(),
                current == bs[index as int],
                n == bs.len(),
                0 <= j <= n,
                0 <= count <= j,
                sum == Self::coh_accum(bs, index as int, c, j as int).0,
                count as int == Self::coh_accum(bs, index as int, c, j as int).1,
                abs(sum.x as int) <= count * 100_000_000,
                abs(sum.y as int) <= count * 100_000_000,
                (count == 0) <==> (forall|k: int|
                    0 <= k < j ==> !is_neighbor(bs, index as int, k, c.cohesion_radius as int)),
            decreases n - j,
        {
            if j != index {
                let other: Boid = self.boids[j];
                let d = current.position.distance_to(&other.position);
                if d > 0 && d < self.config.cohesion_radius {
                    proof {
                        assert(is_neighbor(bs, index as int, j as int, c.cohesion_radius as int));
                    }
                    sum = sum.add(other.position);
                    count = count + 1;
                }
            }
            j = j + 1;
        }
        if count > 0 {
            let centroid = sum.div_count(count);
            proof {
                lemma_div_is_ordered(abs(sum.x as int) as int, count * 100_000_000, count as int);
                lemma_div_is_ordered(abs(sum.y as int) as int, count * 100_000_000, count as int);
                lemma_div_multiples_vanish(100_000_000, count as int);
            }
            self.seek(&current, centroid)
        } else {
            proof {
                assert(0 <= c.max_force * c.max_force) by (nonlinear_arith)
                    requires
                        0 <= c.max_force,
                ;
            }
            Vec2::zero()
        }
    }

    /// The patrol target: the stored x, and the mid height plus the scaled
    /// sine of the phase (reduced to one turn), clamped into the arena.
    #[verifier::opaque]
    pub open spec fn spec_patrol_target(l: LeaderBird, c: Config) -> Vec2 {
        let center_y = c.height as int / 2;
        let sine_y = center_y + mul_div(
            spec_sin(l.sine_time as int % (TAU_FP as int)),
            l.sine_amplitude as int,
            SCALE as int,
        );
        let ty = if sine_y < 0 {
            0
        } else if sine_y > c.height {
            c.height as int
        } else {
            sine_y
        };
        vec2i(l.target_x as int, ty)
    }

    /// The leader's patrol force: seek the patrol target; the exact zero
    /// vector off the leader's own index or when already at the target.
    pub open spec fn spec_patrol(boids: Seq<Boid>, index: int, l: LeaderBird, c: Config) -> Vec2 {
        if index != l.boid_index || l.boid_index >= boids.len() {
            Vec2 { x: 0, y: 0 }
        } else {
            let target = Self::spec_patrol_target(l, c);
            let desired = target.spec_sub(boids[index].position);
            if desired.is_zero() {
                Vec2 { x: 0, y: 0 }
            } else {
                Self::spec_seek(boids[index], target, c)
            }
        }
    }

    /// The follow force on agent `i`: aim a fixed trailing distance behind
    /// the leader along its heading, at eight tenths of the top speed,
    /// capped at seven tenths of the force limit; the exact zero vector
    /// without a valid leader index or when already at the trailing point.
    #[verifier::opaque]
    pub open spec fn spec_follow(boids: Seq<Boid>, i: int, l: LeaderBird, c: Config) -> Vec2 {
        if l.boid_index >= boids.len() {
            Vec2 { x: 0, y: 0 }
        } else {
            let lb = boids[l.boid_index as int];
            let offset = lb.velocity.spec_normalize().spec_neg().spec_scale(8 * SCALE as int);
            let target = lb.position.spec_add(offset);
            let desired = target.spec_sub(boids[i].position);
            if desired.is_zero() {
                Vec2 { x: 0, y: 0 }
            } else {
                desired.spec_normalize().spec_scale(c.max_speed as int * 8 / 10).spec_sub(
                    boids[i].velocity,
                ).spec_limit(c.max_force as int * 7 / 10)
            }
        }
    }

    /// The monotone phase accumulator: the frequency is added every tick,
    /// never reset, saturating only at the `i64` machine bound.
    pub open spec fn spec_advance_phase(t: int, freq: int) -> int {
        if t + freq <= SINE_PHASE_CAP {
            t + freq
        } else {
            SINE_PHASE_CAP as int
        }
    }

    /// One step of the patrol state machine: the phase accumulates the
    /// frequency, and the direction flips exactly when the leader's x has
    /// reached nine tenths (rightward) or one tenth (leftward) of the width.
    pub open spec fn spec_leader_step(l: LeaderBird, px: int, c: Config) -> LeaderBird {
        let t = Self::spec_advance_phase(l.sine_time as int, l.sine_frequency as int);
        let flipped = match l.direction {
            PatrolDirection::ToRight => px >= c.width as int * 9 / 10,
            PatrolDirection::ToLeft => px <= c.width as int / 10,
        };
        LeaderBird {
            boid_index: l.boid_index,
            direction: if !flipped {
                l.direction
            } else {
                match l.direction {
                    PatrolDirection::ToRight => PatrolDirection::ToLeft,
                    PatrolDirection::ToLeft => PatrolDirection::ToRight,
                }
            },
            target_x: if !flipped {
                l.target_x
            } else {
                match l.direction {
                    PatrolDirection::ToRight => (c.width as int / 10) as i64,
                    PatrolDirection::ToLeft => (c.width as int * 9 / 10) as i64,
                }
            },
            sine_time: t as i64,
            sine_frequency: l.sine_frequency,
            sine_amplitude: l.sine_amplitude,
        }
    }

    /// The leader state after one tick: the phase accumulates on every tick
    /// a leader exists; the flip check runs only against a valid index and
    /// is otherwise skipped.
    pub open spec fn spec_leader_after(
        boids: Seq<Boid>,
        leader: Option<LeaderBird>,
        c: Config,
    ) -> Option<LeaderBird> {
        match leader {
            Option::Some(l) => if l.boid_index < boids.len() {
                Option::Some(
                    Self::spec_leader_step(l, boids[l.boid_index as int].position.x as int, c),
                )
            } else {
                Option::Some(
                    LeaderBird {
                        sine_time: Self::spec_advance_phase(
                            l.sine_time as int,
                            l.sine_frequency as int,
                        ) as i64,
                        ..l
                    },
                )
            },
            Option::None => Option::None,
        }
    }

    /// The leader's patrol force toward its scripted target.
    pub fn leader_patrol_force(&self, index: usize) -> (f: Vec2)
        requires
            self.wf(),
            (index as int) < self.boids@.len(),
        ensures
            f == match self.leader {
                Option::Some(l) => Self::spec_patrol(self.boids@, index as int, l, self.config),
                Option::None => Vec2 { x: 0, y: 0 },
            },
            force_ok(f, self.config),
    {
        let ghost c = self.config;
        proof {
            assert(0 <= c.max_force * c.max_force) by (nonlinear_arith)
                requires
                    0 <= c.max_force,
            ;
        }
        let lop = self.leader;
        match lop {
            Option::Some(l) => {
                if index == l.boid_index {
                    let boid: Boid = self.boids[index];
                    let phase = l.sine_time % TAU_FP;
                    proof {
                        reveal(Simulation::spec_patrol_target);
                        lemma_mod_division_less_than_divisor(l.sine_time as int, TAU_FP as int);
                    }
                    let s = sin_fp(phase);
                    proof {
                        lemma_abs_mul_le(s as int, l.sine_amplitude as int, SCALE as int,
                            l.sine_amplitude as int);
                        lemma_div_is_ordered(
                            abs(s as int) * l.sine_amplitude,
                            (SCALE as int) * l.sine_amplitude,
                            SCALE as int,
                        );
                        lemma_div_multiples_vanish(l.sine_amplitude as int, SCALE as int);
                    }
                    let offs = mul_div_i64(s, l.sine_amplitude, SCALE);
                    let center_y = self.config.height / 2;
                    proof {
                        lemma_div_pos_is_pos(self.config.height as int, 2);
                        lemma_div_is_ordered(self.config.height as int, 100_000_000, 2);
                    }
                    let sine_y = center_y + offs;
                    let ty: i64 = if sine_y < 0 {
                        0
                    } else if sine_y > self.config.height {
                        self.config.height
                    } else {
                        sine_y
                    };
                    let target = Vec2 { x: l.target_x, y: ty };
                    let desired = target.sub(boid.position);
                    if desired.x == 0 && desired.y == 0 {
                        Vec2::zero()
                    } else {
                        self.seek(&boid, target)
                    }
                } else {
                    Vec2::zero()
                }
            },
            Option::None => Vec2::zero(),
        }
    }

    /// The force that keeps a flock member trailing behind the leader.
    #[verifier::spinoff_prover]
    #[verifier::rlimit(50)]
    pub fn follow_leader_force(&self, index: usize) -> (f: Vec2)
        requires
            self.wf(),
            (index as int) < self.boids@.len(),
        ensures
            f == match self.leader {
                Option::Some(l) => Self::spec_follow(self.boids@, index as int, l, self.config),
                Option::None => Vec2 { x: 0, y: 0 },
            },
            force_ok(f, self.config),
    {
        let ghost c = self.config;
        proof {
            reveal(Simulation::spec_follow);
            assert(0 <= c.max_force * c.max_force) by (nonlinear_arith)
                requires
                    0 <= c.max_force,
            ;
        }
        let lop = self.leader;
        match lop {
            Option::Some(l) => {
                if l.boid_index < self.boids.len() {
                    let lb: Boid = self.boids[l.boid_index];
                    let ln = lb.velocity.normalize();
                    let lnn = ln.neg();
                    let offset = lnn.scale(8 * SCALE);
                    proof {
                        lemma_div_chain_bound(
                            offset.x as int,
                            lnn.x as int,
                            8 * SCALE as int,
                            SCALE as int,
                            SCALE as int,
                            8 * SCALE as int,
                        );
                        lemma_div_chain_bound(
                            offset.y as int,
                            lnn.y as int,
                            8 * SCALE as int,
                            SCALE as int,
                            SCALE as int,
                            8 * SCALE as int,
                        );
                    }
                    let target = lb.position.add(offset);
                    let cur: Boid = self.boids[index];
                    let desired = target.sub(cur.position);
                    if desired.x == 0 && desired.y == 0 {
                        Vec2::zero()
                    } else {
                        let dn = desired.normalize();
                        let spd = (self.config.max_speed * 8) / 10;
                        proof {
                            lemma_div_pos_is_pos(self.config.max_speed as int * 8, 10);
                            lemma_div_is_ordered(self.config.max_speed as int * 8, 8_000_000, 10);
                        }
                        let ds = dn.scale(spd);
                        proof {
                            lemma_div_chain_bound(
                                ds.x as int,
                                dn.x as int,
                                spd as int,
                                SCALE as int,
                                SCALE as int,
                                1_000_000,
                            );
                            lemma_div_chain_bound(
                                ds.y as int,
                                dn.y as int,
                                spd as int,
                                SCALE as int,
                                SCALE as int,
                                1_000_000,
                            );
                        }
                        let steer = ds.sub(cur.velocity);
                        let capf = (self.config.max_force * 7) / 10;
                        proof {
                            lemma_div_pos_is_pos(self.config.max_force as int * 7, 10);
                            lemma_div_is_ordered(
                                self.config.max_force as int * 7,
                                self.config.max_force as int * 10,
                                10,
                            );
                            lemma_div_multiples_vanish(self.config.max_force as int, 10);
                        }
                        let f = steer.limit(capf);
                        proof {
                            assert(f.spec_mag_sq() <= c.max_force * c.max_force)
                                by (nonlinear_arith)
                                requires
                                    f.spec_mag_sq() <= capf * capf,
                                    0 <= capf <= c.max_force,
                            ;
                            assert(f.in_bounds(c.max_force as int));
                            assert(force_ok(f, c));
                        }
                        f
                    }
                } else {
                    Vec2::zero()
                }
            },
            Option::None => Vec2::zero(),
        }
    }

    /// Advance the patrol state machine: the phase accumulates whenever a
    /// leader exists; the direction check reads the committed leader
    /// position and is skipped on a stale index.
    fn update_leader_state(&mut self)
        requires
            old(self).wf(),
        ensures
            final(self).boids@ == old(self).boids@,
            final(self).config == old(self).config,
            final(self).leader == Self::spec_leader_after(
                old(self).boids@,
                old(self).leader,
                old(self).config,
            ),
            final(self).wf(),
    {
        let lop = self.leader;
        match lop {
            Option::Some(l) => {
                let t2: i64 = if l.sine_time <= SINE_PHASE_CAP - l.sine_frequency {
                    l.sine_time + l.sine_frequency
                } else {
                    SINE_PHASE_CAP
                };
                let mut l2 = l;
                l2.sine_time = t2;
                if l.boid_index < self.boids.len() {
                    let px = self.boids[l.boid_index].position.x;
                    proof {
                        lemma_div_pos_is_pos(self.config.width as int * 9, 10);
                        lemma_div_is_ordered(self.config.width as int * 9, 900_000_000, 10);
                        lemma_div_pos_is_pos(self.config.width as int, 10);
                        lemma_div_is_ordered(self.config.width as int, 100_000_000, 10);
                    }
                    match l.direction {
                        PatrolDirection::ToRight => {
                            if px >= (self.config.width * 9) / 10 {
                                l2.direction = PatrolDirection::ToLeft;
                                l2.target_x = self.config.width / 10;
                            }
                        },
                        PatrolDirection::ToLeft => {
                            if px <= self.config.width / 10 {
                                l2.direction = PatrolDirection::ToRight;
                                l2.target_x = (self.config.width * 9) / 10;
                            }
                        },
                    }
                }
                self.leader = Option::Some(l2);
            },
            Option::None => {},
        }
    }

    /// Steer toward `target` (shared by the cohesion rule and the leader's
    /// patrol).
    fn seek(&self, boid: &Boid, target: Vec2) -> (f: Vec2)
        requires
            self.config.wf(),
            boid.position.in_bounds(100_000_000),
            boid.velocity.in_bounds(1_000_000),
            target.in_bounds(200_000_000),
        ensures
            f == Self::spec_seek(*boid, target, self.config),
            force_ok(f, self.config),
    {
        let desired = target.sub(boid.position);
        let desired_n = desired.normalize();
        let desired_s = desired_n.scale(self.config.max_speed);
        proof {
            lemma_div_chain_bound(
                desired_s.x as int,
                desired_n.x as int,
                self.config.max_speed as int,
                SCALE as int,
                SCALE as int,
                1_000_000,
            );
            lemma_div_chain_bound(
                desired_s.y as int,
                desired_n.y as int,
                self.config.max_speed as int,
                SCALE as int,
                SCALE as int,
                1_000_000,
            );
        }
        let steer = desired_s.sub(boid.velocity);
        let f = steer.limit(self.config.max_force);
        proof {
            assert(0 <= self.config.max_force * self.config.max_force) by (nonlinear_arith)
                requires
                    0 <= self.config.max_force,
            ;
        }
        f
    }

    /// Steer away from every agent strictly closer than the separation
    /// radius; the exact zero vector when there is no such neighbor.
    pub fn separation(&self, index: usize) -> (f: Vec2)
        requires
            self.bounded(),
            (index as int) < self.boids@.len(),
        ensures
            f == Self::spec_separation(self.boids@, index as int, self.config),
            !has_neighbor(
                self.boids@,
                index as int,
                self.config.separation_radius as int,
            ) ==> f == (Vec2 { x: 0, y: 0 }),
            force_ok(f, self.config),
    {
        let ghost bs = self.boids@;
        let ghost c = self.config;
        proof {
            reveal(Simulation::spec_separation);
        }
        let current: Boid = self.boids[index];
        let mut steer = Vec2::zero();
        let mut count: i64 = 0;
        let n = self.boids.len();
        let mut j: usize = 0;
        while j < n

            invariant
                self.bounded(),
                bs == self.boids@,
                c == self.config,
                (index as int) < bs.len(),
                current == bs[index as int],
                n == bs.len(),
                0 <= j <= n,
                0 <= count <= j,
                steer == Self::sep_accum(bs, index as int, c, j as int).0,
                count as int == Self::sep_accum(bs, index as int, c, j as int).1,
                abs(steer.x as int) <= count * 1_000_000,
                abs(steer.y as int) <= count * 1_000_000,
                (count == 0) <==> (forall|k: int|
                    0 <= k < j ==> !is_neighbor(bs, index as int, k, c.separation_radius as int)),
            decreases n - j,
        {
            if j != index {
                let other: Boid = self.boids[j];
                let d = current.position.distance_to(&other.position);
                if d > 0 && d < self.config.separation_radius {
                    let diff = current.position.sub(other.position);
                    let diff_n = diff.normalize();
                    let term = diff_n.div_fp(d);
                    proof {
                        lemma_div_chain_bound(
                            term.x as int,
                            diff_n.x as int,
                            SCALE as int,
                            d as int,
                            SCALE as int,
                            SCALE as int,
                        );
                        lemma_div_chain_bound(
                            term.y as int,
                            diff_n.y as int,
                            SCALE as int,
                            d as int,
                            SCALE as int,
                            SCALE as int,
                        );
                        lemma_div_nonincreasing(1_000_000, d as int);
                        assert(is_neighbor(bs, index as int, j as int, c.separation_radius as int));
                    }
                    steer = steer.add(term);
                    count = count + 1;
                }
            }
            j = j + 1;
        }
        if count > 0 {
            let avg = steer.div_count(count);
            proof {
                lemma_div_is_ordered(abs(steer.x as int) as int, count * 1_000_000, count as int);
                lemma_div_is_ordered(abs(steer.y as int) as int, count * 1_000_000, count as int);
                lemma_div_multiples_vanish(1_000_000, count as int);
            }
            let avg_n = avg.normalize();
            let avg_s = avg_n.scale(self.config.max_speed);
            proof {
                lemma_div_chain_bound(
                    avg_s.x as int,
                    avg_n.x as int,
                    self.config.max_speed as int,
                    SCALE as int,
                    SCALE as int,
                    1_000_000,
                );
                lemma_div_chain_bound(
                    avg_s.y as int,
                    avg_n.y as int,
                    self.config.max_speed as int,
                    SCALE as int,
                    SCALE as int,
                    1_000_000,
                );
            }
            let rel = avg_s.sub(current.velocity);
            let f = rel.limit(self.config.max_force);
            proof {
                assert(0 <= c.max_force * c.max_force) by (nonlinear_arith)
                    requires
                        0 <= c.max_force,
                ;
            }
            f
        } else {
            proof {
                assert(0 <= c.max_force * c.max_force) by (nonlinear_arith)
                    requires
                        0 <= c.max_force,
                ;
            }
            Vec2::zero()
        }
    }
}

impl Simulation {
    /// The force applied to agent `i` this tick: the patrol force for the
    /// leader; for a flock member the three weighted flocking rules plus one
    /// and a half times the follow force.
    pub open spec fn spec_force_for(
        boids: Seq<Boid>,
        i: int,
        leader: Option<LeaderBird>,
        c: Config,
    ) -> Vec2 {
        if boids[i].is_leader {
            match leader {
                Option::Some(l) => Self::spec_patrol(boids, i, l, c),
                Option::None => Vec2 { x: 0, y: 0 },
            }
        } else {
            let fol = match leader {
                Option::Some(l) => Self::spec_follow(boids, i, l, c),
                Option::None => Vec2 { x: 0, y: 0 },
            };
            Self::spec_separation(boids, i, c).spec_scale(c.separation_weight as int).spec_add(
                Self::spec_alignment(boids, i, c).spec_scale(c.alignment_weight as int),
            ).spec_add(
                Self::spec_cohesion(boids, i, c).spec_scale(c.cohesion_weight as int),
            ).spec_add(fol.spec_scale(1500))
        }
    }

    /// Agent `i` after one tick: its force accumulated, then integrated.
    pub open spec fn spec_tick_boid(
        boids: Seq<Boid>,
        i: int,
        leader: Option<LeaderBird>,
        c: Config,
    ) -> Boid {
        let b = boids[i];
        let loaded = Boid {
            position: b.position,
            velocity: b.velocity,
            acceleration: b.acceleration.spec_add(Self::spec_force_for(boids, i, leader, c)),
            is_leader: b.is_leader,
        };
        loaded.spec_step(c)
    }

    /// The force applied to agent `index` this tick, from the committed
    /// pre-tick snapshot.
    fn force_for(&self, index: usize) -> (f: Vec2)
        requires
            self.wf(),
            (index as int) < self.boids@.len(),
        ensures
            f == Self::spec_force_for(self.boids@, index as int, self.leader, self.config),
            f.in_bounds(50_000_000),
    {
        if self.boids[index].is_leader {
            let f = self.leader_patrol_force(index);
            f
        } else {
            let f = self.flock_force(index);
            f
        }
    }

    /// The weighted rule composition for a flock member: the three flocking
    /// rules at their configured weights plus one and a half times the
    /// follow force.
    #[verifier::spinoff_prover]
    #[verifier::rlimit(100)]
    fn flock_force(&self, index: usize) -> (f: Vec2)
        requires
            self.wf(),
            (index as int) < self.boids@.len(),
            !self.boids@[index as int].is_leader,
        ensures
            f == Self::spec_force_for(self.boids@, index as int, self.leader, self.config),
            f.in_bounds(50_000_000),
    {
        let ghost c = self.config;
        proof {
            assert forall|j: int|
                0 <= j < self.boids@.len() implies ((#[trigger] self.boids@[j]).position.in_bounds(
                    100_000_000,
                ) && self.boids@[j].velocity.in_bounds(1_000_000)) by {
                assert(self.boids@[j].wf());
            }
            assert(self.bounded());
        }
        {
            let sep = self.separation(index);
            let ali = self.alignment(index);
            let coh = self.cohesion(index);
            let fol = self.follow_leader_force(index);
            let sep_w = sep.scale(self.config.separation_weight);
            let ali_w = ali.scale(self.config.alignment_weight);
            let coh_w = coh.scale(self.config.cohesion_weight);
            let fol_w = fol.scale(1500);
            proof {
                lemma_div_chain_bound(sep_w.x as int, sep.x as int,
                    c.separation_weight as int, SCALE as int, 1_000_000, 10_000);
                lemma_div_chain_bound(sep_w.y as int, sep.y as int,
                    c.separation_weight as int, SCALE as int, 1_000_000, 10_000);
                lemma_div_chain_bound(ali_w.x as int, ali.x as int,
                    c.alignment_weight as int, SCALE as int, 1_000_000, 10_000);
                lemma_div_chain_bound(ali_w.y as int, ali.y as int,
                    c.alignment_weight as int, SCALE as int, 1_000_000, 10_000);
                lemma_div_chain_bound(coh_w.x as int, coh.x as int,
                    c.cohesion_weight as int, SCALE as int, 1_000_000, 10_000);
                lemma_div_chain_bound(coh_w.y as int, coh.y as int,
                    c.cohesion_weight as int, SCALE as int, 1_000_000, 10_000);
                lemma_div_chain_bound(fol_w.x as int, fol.x as int, 1500, SCALE as int,
                    1_000_000, 1_500);
                lemma_div_chain_bound(fol_w.y as int, fol.y as int, 1500, SCALE as int,
                    1_000_000, 1_500);
            }
            let total = sep_w.add(ali_w).add(coh_w).add(fol_w);
            total
        }
    }

    /// One tick: advance the patrol state, compute every agent's force from
    /// the committed pre-tick snapshot, then apply and integrate every agent
    /// exactly once. Afterward every velocity is within the speed limit and
    /// every position within the arena margins.
    #[verifier::rlimit(100)]
    pub fn update(&mut self)
        requires
            old(self).wf(),
        ensures
            final(self).wf(),
            final(self).config == old(self).config,
            final(self).boids@.len() == old(self).boids@.len(),
            final(self).leader == Self::spec_leader_after(
                old(self).boids@,
                old(self).leader,
                old(self).config,
            ),
            forall|i: int|
                0 <= i < old(self).boids@.len() ==> #[trigger] final(self).boids@[i]
                    == Self::spec_tick_boid(
                    old(self).boids@,
                    i,
                    Self::spec_leader_after(old(self).boids@, old(self).leader, old(self).config),
                    old(self).config,
                ),
            forall|i: int|
                0 <= i < final(self).boids@.len()
                    ==> (#[trigger] final(self).boids@[i]).velocity.spec_mag_sq()
                    <= old(self).config.max_speed * old(self).config.max_speed,
            forall|i: int|
                0 <= i < final(self).boids@.len()
                    ==> MARGIN <= (#[trigger] final(self).boids@[i]).position.x
                    <= old(self).config.width - MARGIN
                    && MARGIN <= final(self).boids@[i].position.y
                    <= old(self).config.height - MARGIN,
            forall|i: int|
                0 <= i < final(self).boids@.len() ==> (#[trigger] final(self).boids@[i]).is_leader
                    == old(self).boids@[i].is_leader,
    {
        let ghost b0 = self.boids@;
        let ghost c = self.config;
        self.update_leader_state();
        let ghost l1 = self.leader;
        let n = self.boids.len();
        let mut forces: Vec<Vec2> = Vec::new();
        let mut i: usize = 0;
        while i < n

            invariant
                self.wf(),
                self.boids@ == b0,
                self.config == c,
                self.leader == l1,
                n == b0.len(),
                i <= n,
                forces@.len() == i as int,
                forall|j: int|
                    0 <= j < i ==> #[trigger] forces@[j] == Self::spec_force_for(b0, j, l1, c),
                forall|j: int| 0 <= j < i ==> (#[trigger] forces@[j]).in_bounds(50_000_000),
            decreases n - i,
        {
            let f = self.force_for(i);
            forces.push(f);
            i = i + 1;
        }
        let mut k: usize = 0;
        while k < n

            invariant
                self.wf(),
                self.config == c,
                self.leader == l1,
                self.boids@.len() == b0.len(),
                n == b0.len(),
                k <= n,
                forces@.len() == n as int,
                forall|j: int|
                    0 <= j < n ==> #[trigger] forces@[j] == Self::spec_force_for(b0, j, l1, c),
                forall|j: int| 0 <= j < n ==> (#[trigger] forces@[j]).in_bounds(50_000_000),
                forall|j: int| k <= j < n ==> #[trigger] self.boids@[j] == b0[j],
                forall|j: int|
                    0 <= j < k ==> #[trigger] self.boids@[j] == Self::spec_tick_boid(b0, j, l1, c),
                forall|j: int|
                    0 <= j < k ==> MARGIN <= (#[trigger] self.boids@[j]).position.x <= c.width
                        - MARGIN && MARGIN <= self.boids@[j].position.y <= c.height - MARGIN,
                forall|j: int|
                    0 <= j < k ==> (#[trigger] self.boids@[j]).velocity.spec_mag_sq()
                        <= c.max_speed * c.max_speed,
                forall|j: int|
                    0 <= j < b0.len() ==> (#[trigger] self.boids@[j]).is_leader
                        == b0[j].is_leader,
            decreases n - k,
        {
            let f = forces[k];
            let mut b: Boid = self.boids[k];
            b.apply_force(f);
            b.update(&self.config);
            self.boids[k] = b;
            k = k + 1;
        }
    }
}

impl Simulation {
    /// The leader agent's fixed starting pose for `c`: a tenth of the way
    /// into the arena at mid height, heading right at six tenths of the top
    /// speed, with no pending acceleration.
    pub open spec fn leader_spawn_ok(b: Boid, c: Config) -> bool {
        &&& b.is_leader
        &&& b.position.x as int == c.width as int / 10
        &&& b.position.y as int == c.height as int / 2
        &&& b.velocity.x as int == c.max_speed as int * 6 / 10
        &&& b.velocity.y == 0
        &&& b.acceleration.is_zero()
    }

    /// A freshly drawn flock member for `c`: not the leader, starting
    /// somewhere inside the arena with no pending acceleration, heading a
    /// drawn way at half the top speed.
    pub open spec fn member_spawn_ok(b: Boid, c: Config) -> bool {
        &&& !b.is_leader
        &&& 0 <= b.position.x < c.width
        &&& 0 <= b.position.y < c.height
        &&& b.acceleration.is_zero()
        &&& b.velocity.spec_mag_sq() <= c.max_speed * c.max_speed
        &&& exists|t: int|
            0 <= t < TAU_FP && b.velocity == (vec2i(spec_cos(t), spec_sin(t))).spec_scale(
                c.max_speed as int / 2,
            )
    }

    /// A freshly initialized patrol state for `c`.
    pub open spec fn leader_fresh(l: LeaderBird, c: Config) -> bool {
        &&& l.boid_index == 0
        &&& l.direction == PatrolDirection::ToRight
        &&& l.target_x as int == c.width as int * 9 / 10
        &&& l.sine_time == 0
        &&& l.sine_frequency == 20
        &&& l.sine_amplitude as int == c.height as int * 3 / 10
    }

    /// A fresh flock for `config`: the leader at index 0 followed by
    /// `num_boids - 1` randomly placed members.
    fn spawn_flock(config: &Config) -> (boids: Vec<Boid>)
        requires
            config.wf(),
        ensures
            boids@.len() == config.num_boids,
            forall|i: int|
                0 <= i < boids@.len() ==> ((#[trigger] boids@[i]).is_leader <==> i == 0),
            forall|i: int| 0 <= i < boids@.len() ==> (#[trigger] boids@[i]).wf(),
            Self::leader_spawn_ok(boids@[0], *config),
            forall|i: int|
                1 <= i < boids@.len() ==> Self::member_spawn_ok(#[trigger] boids@[i], *config),
    {
        let mut boids: Vec<Boid> = Vec::new();
        boids.push(Boid::new_leader(config));
        let mut i: usize = 1;
        while i < config.num_boids
            invariant
                config.wf(),
                1 <= i <= config.num_boids,
                boids@.len() == i,
                forall|j: int|
                    0 <= j < boids@.len() ==> ((#[trigger] boids@[j]).is_leader <==> j == 0),
                forall|j: int| 0 <= j < boids@.len() ==> (#[trigger] boids@[j]).wf(),
                Self::leader_spawn_ok(boids@[0], *config),
                forall|j: int|
                    1 <= j < boids@.len() ==> Self::member_spawn_ok(#[trigger] boids@[j], *config),
            decreases config.num_boids - i,
        {
            let b = Boid::new(config);
            boids.push(b);
            i = i + 1;
        }
        boids
    }

    /// A simulation over the default parameters: the leader at index 0 plus
    /// `num_boids - 1` flock members.
    pub fn new() -> (s: Simulation)
        ensures
            s.wf(),
            s.config == Config::spec_default(),
            s.boids@.len() == s.config.num_boids,
            s.boids@[0].is_leader,
            Self::leader_spawn_ok(s.boids@[0], s.config),
            forall|i: int|
                1 <= i < s.boids@.len() ==> Self::member_spawn_ok(#[trigger] s.boids@[i], s.config),
            match s.leader {
                Option::Some(l) => Self::leader_fresh(l, s.config),
                Option::None => false,
            },
    {
        let config = Config::default();
        let boids = Self::spawn_flock(&config);
        let leader = Option::Some(LeaderBird::new(0, &config));
        Simulation { boids, config, leader }
    }

    /// A simulation sized for a terminal of the given cell dimensions.
    pub fn new_with_size(term_width: u16, term_height: u16) -> (s: Simulation)
        ensures
            s.wf(),
            s.config == Config::spec_for_terminal(term_width as int, term_height as int),
            s.boids@.len() == s.config.num_boids,
            s.boids@[0].is_leader,
            Self::leader_spawn_ok(s.boids@[0], s.config),
            forall|i: int|
                1 <= i < s.boids@.len() ==> Self::member_spawn_ok(#[trigger] s.boids@[i], s.config),
            match s.leader {
                Option::Some(l) => Self::leader_fresh(l, s.config),
                Option::None => false,
            },
    {
        let config = Config::with_terminal_size(term_width, term_height);
        let boids = Self::spawn_flock(&config);
        let leader = Option::Some(LeaderBird::new(0, &config));
        Simulation { boids, config, leader }
    }

    /// Discard every agent, rebuild the flock at the configured count, and
    /// reinitialize the patrol state; the parameters stay as they are.
    pub fn reset(&mut self)
        requires
            old(self).wf(),
        ensures
            final(self).wf(),
            final(self).config == old(self).config,
            final(self).boids@.len() == final(self).config.num_boids,
            final(self).boids@[0].is_leader,
            Self::leader_spawn_ok(final(self).boids@[0], final(self).config),
            forall|i: int|
                1 <= i < final(self).boids@.len() ==> Self::member_spawn_ok(
                    #[trigger] final(self).boids@[i],
                    final(self).config,
                ),
            match final(self).leader {
                Option::Some(l) => Self::leader_fresh(l, final(self).config),
                Option::None => false,
            },
    {
        let boids = Self::spawn_flock(&self.config);
        self.boids = boids;
        self.leader = Option::Some(LeaderBird::new(0, &self.config));
    }

    /// Resize the population to exactly `new_count` agents: grow with fresh
    /// random members, or shrink by truncating from the tail; a zero count
    /// leaves the population untouched, so the leader at index 0 survives
    /// every resize. The patrol target and amplitude are then recomputed for
    /// the current arena and direction.
    pub fn resize(&mut self, new_count: usize)
        requires
            old(self).wf(),
            new_count <= 10_000,
        ensures
            final(self).wf(),
            final(self).config == old(self).config,
            new_count == 0 ==> final(self).boids@ == old(self).boids@,
            new_count > 0 ==> final(self).boids@.len() == new_count,
            forall|i: int|
                0 <= i < old(self).boids@.len() && i < final(self).boids@.len()
                    ==> #[trigger] final(self).boids@[i] == old(self).boids@[i],
            final(self).boids@[0].is_leader,
            forall|i: int|
                old(self).boids@.len() <= i < final(self).boids@.len()
                    ==> Self::member_spawn_ok(#[trigger] final(self).boids@[i], final(self).config),
            final(self).leader == match old(self).leader {
                Option::Some(l) => Option::Some(
                    LeaderBird {
                        boid_index: l.boid_index,
                        direction: l.direction,
                        target_x: (match l.direction {
                            PatrolDirection::ToRight => old(self).config.width as int * 9 / 10,
                            PatrolDirection::ToLeft => old(self).config.width as int / 10,
                        }) as i64,
                        sine_time: l.sine_time,
                        sine_frequency: l.sine_frequency,
                        sine_amplitude: (old(self).config.height as int * 3 / 10) as i64,
                    },
                ),
                Option::None => Option::None,
            },
    {
        let ghost b0 = self.boids@;
        let target = new_count;
        let current = self.boids.len();
        if target > current {
            let mut i = current;
            while i < target
                invariant
                    self.config == old(self).config,
                    self.leader == old(self).leader,
                    self.config.wf(),
                    b0 == old(self).boids@,
                    current == b0.len(),
                    1 <= current <= i <= target,
                    target <= 10_000,
                    self.boids@.len() == i,
                    forall|j: int| 0 <= j < current ==> #[trigger] self.boids@[j] == b0[j],
                    forall|j: int|
                        0 <= j < self.boids@.len() ==> ((#[trigger] self.boids@[j]).is_leader
                            <==> j == 0),
                    forall|j: int| 0 <= j < self.boids@.len() ==> (#[trigger] self.boids@[j]).wf(),
                    forall|j: int|
                        current <= j < self.boids@.len() ==> Self::member_spawn_ok(
                            #[trigger] self.boids@[j],
                            self.config,
                        ),
                decreases target - i,
            {
                let b = Boid::new(&self.config);
                self.boids.push(b);
                i = i + 1;
            }
        } else if target < current {
            if target > 0 {
                self.boids.truncate(target);
            }
        }
        let lop = self.leader;
        match lop {
            Option::Some(l) => {
                let mut l2 = l;
                match l.direction {
                    PatrolDirection::ToRight => {
                        l2.target_x = (self.config.width * 9) / 10;
                    },
                    PatrolDirection::ToLeft => {
                        l2.target_x = self.config.width / 10;
                    },
                }
                l2.sine_amplitude = (self.config.height * 3) / 10;
                proof {
                    lemma_div_pos_is_pos(self.config.width as int * 9, 10);
                    lemma_div_is_ordered(self.config.width as int * 9, 900_000_000, 10);
                    lemma_div_pos_is_pos(self.config.width as int, 10);
                    lemma_div_is_ordered(self.config.width as int, 100_000_000, 10);
                    lemma_div_pos_is_pos(self.config.height as int * 3, 10);
                    lemma_div_is_ordered(self.config.height as int * 3, 300_000_000, 10);
                }
                self.leader = Option::Some(l2);
            },
            Option::None => {},
        }
    }

    /// Recompute the parameters for a new terminal size, then resize the
    /// population to the count they ask for.
    pub fn adjust_boid_count_for_size(&mut self, term_width: u16, term_height: u16)
        requires
            old(self).wf(),
        ensures
            final(self).wf(),
            final(self).config == Config::spec_for_terminal(
                term_width as int,
                term_height as int,
            ),
            final(self).boids@.len() == final(self).config.num_boids,
            forall|i: int|
                0 <= i < old(self).boids@.len() && i < final(self).boids@.len()
                    ==> #[trigger] final(self).boids@[i] == old(self).boids@[i],
            final(self).boids@[0].is_leader,
            forall|i: int|
                old(self).boids@.len() <= i < final(self).boids@.len()
                    ==> Self::member_spawn_ok(#[trigger] final(self).boids@[i], final(self).config),
            final(self).leader == match old(self).leader {
                Option::Some(l) => Option::Some(
                    LeaderBird {
                        boid_index: l.boid_index,
                        direction: l.direction,
                        target_x: (match l.direction {
                            PatrolDirection::ToRight => final(self).config.width as int * 9 / 10,
                            PatrolDirection::ToLeft => final(self).config.width as int / 10,
                        }) as i64,
                        sine_time: l.sine_time,
                        sine_frequency: l.sine_frequency,
                        sine_amplitude: (final(self).config.height as int * 3 / 10) as i64,
                    },
                ),
                Option::None => Option::None,
            },
    {
        let new_config = Config::with_terminal_size(term_width, term_height);
        let count = new_config.num_boids;
        self.config = new_config;
        self.resize(count);
    }

    /// Adopt a new display area written back by the renderer; it takes
    /// effect from the next tick.
    pub fn set_bounds(&mut self, width: i64, height: i64)
        requires
            old(self).wf(),
            10 * MARGIN <= width <= 100_000_000,
            10 * MARGIN <= height <= 100_000_000,
        ensures
            final(self).wf(),
            final(self).config.width == width,
            final(self).config.height == height,
            final(self).config.num_boids == old(self).config.num_boids,
            final(self).config.max_speed == old(self).config.max_speed,
            final(self).config.max_force == old(self).config.max_force,
            final(self).config.separation_radius == old(self).config.separation_radius,
            final(self).config.alignment_radius == old(self).config.alignment_radius,
            final(self).config.cohesion_radius == old(self).config.cohesion_radius,
            final(self).config.separation_weight == old(self).config.separation_weight,
            final(self).config.alignment_weight == old(self).config.alignment_weight,
            final(self).config.cohesion_weight == old(self).config.cohesion_weight,
            final(self).boids@ == old(self).boids@,
            final(self).leader == old(self).leader,
    {
        self.config.width = width;
        self.config.height = height;
    }
}

/// Law: one patrol step flips the direction right-to-left exactly when the
/// leader's x has reached nine tenths of the arena width (the target then
/// becomes one tenth), flips left-to-right exactly when it has reached one
/// tenth (the target then becomes nine tenths), and on every other tick
/// leaves the direction and target untouched; the stored agent index,
/// frequency and amplitude never change.
pub proof fn lemma_patrol_flip(l: LeaderBird, px: int, c: Config)
    requires
        l.wf(),
    ensures
        ({
            let n = Simulation::spec_leader_step(l, px, c);
            let flip = match l.direction {
                PatrolDirection::ToRight => px >= c.width as int * 9 / 10,
                PatrolDirection::ToLeft => px <= c.width as int / 10,
            };
            &&& (n.direction != l.direction) <==> flip
            &&& !flip ==> n.direction == l.direction && n.target_x == l.target_x
            &&& flip && l.direction == PatrolDirection::ToRight ==> n.direction
                == PatrolDirection::ToLeft && n.target_x as int == c.width as int / 10
            &&& flip && l.direction == PatrolDirection::ToLeft ==> n.direction
                == PatrolDirection::ToRight && n.target_x as int == c.width as int * 9 / 10
            &&& n.boid_index == l.boid_index
            &&& n.sine_frequency == l.sine_frequency
            &&& n.sine_amplitude == l.sine_amplitude
            &&& n.sine_time as int == Simulation::spec_advance_phase(
                l.sine_time as int,
                l.sine_frequency as int,
            )
        }),
{
}

} // verus!
