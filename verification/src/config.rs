//! Read-only numeric parameters of the simulation.

use vstd::prelude::*;

verus! {

use crate::fixed::MARGIN;

/// Simulation parameters; every length, radius and speed is in fixed-point
/// steps (`SCALE` steps per simulation cell), weights in thousandths.
#[derive(Debug, Clone, Copy, PartialEq, Eq, Structural)]
pub struct Config {
    pub width: i64,
    pub height: i64,
    pub num_boids: usize,
    pub max_speed: i64,
    pub max_force: i64,
    pub separation_radius: i64,
    pub alignment_radius: i64,
    pub cohesion_radius: i64,
    pub separation_weight: i64,
    pub alignment_weight: i64,
    pub cohesion_weight: i64,
}

impl Config {
    /// Parameter ranges under which every simulation step stays free of
    /// arithmetic overflow.
    pub open spec fn wf(self) -> bool {
        &&& 10 * MARGIN <= self.width <= 100_000_000
        &&& 10 * MARGIN <= self.height <= 100_000_000
        &&& 1 <= self.num_boids <= 10_000
        &&& 1 <= self.max_speed <= 1_000_000
        &&& 0 <= self.max_force <= 1_000_000
        &&& 0 <= self.separation_radius <= 100_000_000
        &&& 0 <= self.alignment_radius <= 100_000_000
        &&& 0 <= self.cohesion_radius <= 100_000_000
        &&& 0 <= self.separation_weight <= 10_000
        &&& 0 <= self.alignment_weight <= 10_000
        &&& 0 <= self.cohesion_weight <= 10_000
    }

    /// The default parameter set: an 80 x 24 cell arena with 25 agents.
    pub open spec fn spec_default() -> Config {
        Config {
            width: 80_000,
            height: 24_000,
            num_boids: 25,
            max_speed: 1_500,
            max_force: 80,
            separation_radius: 3_000,
            alignment_radius: 5_000,
            cohesion_radius: 5_000,
            separation_weight: 2_000,
            alignment_weight: 1_200,
            cohesion_weight: 1_000,
        }
    }

    /// The parameters derived from a terminal of the given cell dimensions:
    /// three quarters of the width make the canvas, the agent count follows
    /// the canvas area at one agent per 125 cells, and the separation radius
    /// follows the agent density.
    pub open spec fn spec_for_terminal(tw: int, th: int) -> Config {
        let cw = if 750 * tw >= 20_000 {
            750 * tw
        } else {
            20_000
        };
        let ch = if 1000 * th >= 10_000 {
            1000 * th
        } else {
            10_000
        };
        let area = cw * ch;
        let raw = area / 125_000_000;
        let nb = if raw < 15 {
            15
        } else if raw > 100 {
            100
        } else {
            raw
        };
        let dmr = (nb * 1_000_000_000) / area;
        let dm = if dmr < 500 {
            500
        } else if dmr > 2000 {
            2000
        } else {
            dmr
        };
        Config {
            width: cw as i64,
            height: ch as i64,
            num_boids: nb as usize,
            max_speed: 1_500,
            max_force: 80,
            separation_radius: (3 * dm) as i64,
            alignment_radius: 5_000,
            cohesion_radius: 5_000,
            separation_weight: 2_000,
            alignment_weight: 1_200,
            cohesion_weight: 1_000,
        }
    }

    /// Build the parameters for a terminal of the given cell dimensions.
    pub fn with_terminal_size(term_width: u16, term_height: u16) -> (c: Config)
        ensures
            c == Config::spec_for_terminal(term_width as int, term_height as int),
            c.wf(),
            15 <= c.num_boids <= 100,
            c.max_speed == 1_500,
            c.max_force == 80,
    {
        let w750: i64 = (term_width as i64) * 750;
        let cw: i64 = if w750 >= 20_000 {
            w750
        } else {
            20_000
        };
        let h1000: i64 = (term_height as i64) * 1000;
        let ch: i64 = if h1000 >= 10_000 {
            h1000
        } else {
            10_000
        };
        proof {
            assert(20_000 <= cw <= 49_151_250);
            assert(10_000 <= ch <= 65_535_000);
            assert(200_000_000 <= cw * ch <= 3_221_629_593_750_000) by (nonlinear_arith)
                requires
                    20_000 <= cw <= 49_151_250,
                    10_000 <= ch <= 65_535_000,
            ;
        }
        let area: i64 = cw * ch;
        let raw: i64 = area / 125_000_000;
        let nb: i64 = if raw < 15 {
            15
        } else if raw > 100 {
            100
        } else {
            raw
        };
        let dmr: i64 = (nb * 1_000_000_000) / area;
        let dm: i64 = if dmr < 500 {
            500
        } else if dmr > 2000 {
            2000
        } else {
            dmr
        };
        Config {
            width: cw,
            height: ch,
            num_boids: nb as usize,
            max_speed: 1_500,
            max_force: 80,
            separation_radius: 3 * dm,
            alignment_radius: 5_000,
            cohesion_radius: 5_000,
            separation_weight: 2_000,
            alignment_weight: 1_200,
            cohesion_weight: 1_000,
        }
    }
}

impl Default for Config {
    /// The fixed parameter set used when no terminal size is given.
    fn default() -> (c: Config)
        ensures
            c == Config::spec_default(),
            c.wf(),
    {
        Config {
            width: 80_000,
            height: 24_000,
            num_boids: 25,
            max_speed: 1_500,
            max_force: 80,
            separation_radius: 3_000,
            alignment_radius: 5_000,
            cohesion_radius: 5_000,
            separation_weight: 2_000,
            alignment_weight: 1_200,
            cohesion_weight: 1_000,
        }
    }
}

} // verus!
