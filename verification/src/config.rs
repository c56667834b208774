//! The tunable parameters of the simulation.

use vstd::prelude::*;
use crate::geometry::WORLD_LIMIT;
use crate::units::{SCALE, TAU};

verus! {

/// The parameters that shape the cats' behaviour. Lengths, speeds, energies
/// and angles are fixed-point; the two probabilities are fixed-point
/// fractions of one.
#[derive(Clone, Copy, Debug, PartialEq, Eq, Structural)]
pub struct Config {
    /// How many cats there are.
    pub cat_count: usize,
    /// Two cats play only when farther apart than this.
    pub cat_repel_dist: i64,
    /// Two cats play only when closer than this.
    pub cat_attract_dist: i64,
    /// The speed of a cat that has just been startled.
    pub chase_speed: i64,
    /// The energy of a cat that has just been startled or woken.
    pub chase_energy: i64,
    /// A cat closer to the player than this flees.
    pub chase_distance: i64,
    /// How far a cat near the edge turns in one tick.
    pub turn_away: i64,
    /// The width of the band inside the safe radius where cats start to turn.
    pub edge_repel: i64,
    /// The chance that two cats at playing distance play in a tick.
    pub does_cat_play: i64,
    /// No cat ends a tick faster than this.
    pub max_speed: i64,
    /// The chance that a cat wakes by itself in a tick.
    pub wake_cat: i64,
    /// The tick scores when the flock's spread is below this.
    pub target_separation: i64,
    /// After more than this many ticks without a wake-up, one cat is woken.
    pub min_cat_wakeup: u64,
    /// The width of the interval from which the heading's jitter is drawn.
    pub cat_direction_change: i64,
}

/// The parameters the game ships with.
pub open spec fn standard_config() -> Config {
    Config {
        cat_count: 9,
        cat_repel_dist: 75_000_000,
        cat_attract_dist: 100_000_000,
        chase_speed: 2_000_000,
        chase_energy: 50_000_000,
        chase_distance: 200_000_000,
        turn_away: 100_000,
        edge_repel: 100_000_000,
        does_cat_play: 50_000,
        max_speed: 10_000_000,
        wake_cat: 200,
        target_separation: 200_000_000,
        min_cat_wakeup: 300,
        cat_direction_change: 30_000,
    }
}

impl Config {
    /// The parameters are usable: a startled cat is not faster than the
    /// speed limit, the chances are fractions of one, and every magnitude
    /// fits the bounded plane.
    pub open spec fn wf(self) -> bool {
        &&& 0 <= self.chase_speed <= self.max_speed <= WORLD_LIMIT
        &&& 0 <= self.chase_energy
        &&& 0 <= self.turn_away <= TAU
        &&& 0 <= self.edge_repel <= WORLD_LIMIT
        &&& 0 <= self.does_cat_play <= SCALE
        &&& 0 <= self.wake_cat <= SCALE
        &&& self.min_cat_wakeup < u64::MAX
        &&& 0 <= self.cat_direction_change <= TAU
    }

    /// Tells whether the parameters are usable.
    pub fn is_wf(&self) -> (ok: bool)
        ensures
            ok == self.wf(),
    {
        0 <= self.chase_speed && self.chase_speed <= self.max_speed
            && self.max_speed <= WORLD_LIMIT && 0 <= self.chase_energy && 0 <= self.turn_away
            && self.turn_away <= TAU && 0 <= self.edge_repel && self.edge_repel <= WORLD_LIMIT && 0
            <= self.does_cat_play && self.does_cat_play <= SCALE && 0 <= self.wake_cat
            && self.wake_cat <= SCALE && self.min_cat_wakeup < u64::MAX && 0
            <= self.cat_direction_change && self.cat_direction_change <= TAU
    }

    /// The parameters the game ships with: nine cats, playing distance
    /// between 75 and 100, chase speed 2, chase energy 50, chase distance 200,
    /// turn 0.1, edge band 100, play chance 0.05, speed limit 10, wake chance
    /// 0.0002, target separation 200, forced wake after 300 ticks, jitter
    /// width 0.03.
    pub fn standard() -> (cfg: Config)
        ensures
            cfg == standard_config(),
            cfg.wf(),
    {
        Config {
            cat_count: 9,
            cat_repel_dist: 75 * SCALE,
            cat_attract_dist: 100 * SCALE,
            chase_speed: 2 * SCALE,
            chase_energy: 50 * SCALE,
            chase_distance: 200 * SCALE,
            turn_away: SCALE / 10,
            edge_repel: 100 * SCALE,
            does_cat_play: SCALE / 20,
            max_speed: 10 * SCALE,
            wake_cat: SCALE / 5000,
            target_separation: 200 * SCALE,
            min_cat_wakeup: 300,
            cat_direction_change: 3 * SCALE / 100,
        }
    }
}

impl Default for Config {
    fn default() -> (cfg: Config)
        ensures
            cfg == standard_config(),
    {
        Config::standard()
    }
}

} // verus!
