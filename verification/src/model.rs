//! The records of the simulation: cats and their behaviour, the player, the
//! world, and what the cats are told about their surroundings.

use vstd::prelude::*;
use crate::config::Config;
use crate::geometry::{Point, WORLD_LIMIT};
use crate::units::{PI, SCALE};

verus! {

/// What drives a cat: how long it stays motivated, where it is heading and
/// how fast.
#[derive(Clone, Copy, Debug, PartialEq, Eq, Structural)]
pub struct Behavior {
    /// Remaining motivated ticks; while positive the cat accelerates.
    pub energy: i64,
    /// Heading angle.
    pub direction: i64,
    /// Distance covered per tick along the heading.
    pub speed: i64,
}

impl Behavior {
    /// Energy lies in `[0, chase_energy]`, the heading in `(-PI, PI]` and the
    /// speed in `[0, max_speed]`.
    pub open spec fn wf(self, cfg: Config) -> bool {
        &&& 0 <= self.energy <= cfg.chase_energy
        &&& -PI < self.direction <= PI
        &&& 0 <= self.speed <= cfg.max_speed
    }

    /// Tells whether energy, heading and speed are within their ranges.
    pub fn is_wf(&self, cfg: &Config) -> (ok: bool)
        ensures
            ok == self.wf(*cfg),
    {
        0 <= self.energy && self.energy <= cfg.chase_energy && -PI < self.direction
            && self.direction <= PI && 0 <= self.speed && self.speed <= cfg.max_speed
    }
}

/// A cat: where it is, how large it is drawn, and what drives it.
#[derive(Clone, Copy, Debug, PartialEq, Eq, Structural)]
pub struct Cat {
    pub position: Point,
    pub radius: i64,
    pub behavior: Behavior,
}

impl Cat {
    /// The cat is on the plane and its behaviour is within its ranges.
    pub open spec fn wf(self, cfg: Config) -> bool {
        self.position.wf() && self.behavior.wf(cfg)
    }

    /// Tells whether the cat is on the plane with its behaviour in range.
    pub fn is_wf(&self, cfg: &Config) -> (ok: bool)
        ensures
            ok == self.wf(*cfg),
    {
        self.position.is_wf() && self.behavior.is_wf(cfg)
    }
}

/// Every cat of the flock is well formed.
pub open spec fn flock_wf(cats: Seq<Cat>, cfg: Config) -> bool {
    forall|k: int| 0 <= k < cats.len() ==> (#[trigger] cats[k]).wf(cfg)
}

/// Tells whether every cat of the flock is well formed.
pub fn flock_is_wf(cats: &Vec<Cat>, cfg: &Config) -> (ok: bool)
    ensures
        ok == flock_wf(cats@, *cfg),
{
    let mut k: usize = 0;
    while k < cats.len()
        invariant
            k <= cats.len(),
            forall|c: int| 0 <= c < k ==> (#[trigger] cats@[c]).wf(*cfg),
        decreases cats.len() - k,
    {
        if !cats[k].is_wf(cfg) {
            return false;
        }
        k = k + 1;
    }
    true
}

/// The player's agent: a position that follows the cursor.
#[derive(Clone, Copy, Debug, PartialEq, Eq, Structural)]
pub struct Player {
    pub position: Point,
    pub radius: i64,
}

/// What a cat is told of its surroundings at the start of a tick: two
/// angles, as the arctangent gives them.
#[derive(Clone, Copy, Debug, PartialEq, Eq, Structural)]
pub struct Bearings {
    /// The angle of the vector from the player to the cat; zero where the two
    /// coincide.
    pub away_from_player: i64,
    /// The angle of the vector from the origin to the cat.
    pub from_center: i64,
}

impl Bearings {
    /// Both angles lie in `[-PI, PI]`.
    pub open spec fn wf(self) -> bool {
        -PI <= self.away_from_player <= PI && -PI <= self.from_center <= PI
    }

    /// Tells whether both angles lie in `[-PI, PI]`.
    pub fn is_wf(&self) -> (ok: bool)
        ensures
            ok == self.wf(),
    {
        -PI <= self.away_from_player && self.away_from_player <= PI && -PI <= self.from_center
            && self.from_center <= PI
    }

    /// The two bearings, if both lie in `[-PI, PI]`.
    pub fn new(away_from_player: i64, from_center: i64) -> (b: Option<Bearings>)
        ensures
            b == (if (Bearings { away_from_player, from_center }).wf() {
                Some(Bearings { away_from_player, from_center })
            } else {
                None
            }),
    {
        let b = Bearings { away_from_player, from_center };
        if b.is_wf() {
            Some(b)
        } else {
            None
        }
    }
}

/// Every cat's bearings are well formed.
pub open spec fn bearings_wf(bearings: Seq<Bearings>) -> bool {
    forall|k: int| 0 <= k < bearings.len() ==> (#[trigger] bearings[k]).wf()
}

/// Tells whether every cat's bearings are well formed.
pub fn bearings_are_wf(bearings: &Vec<Bearings>) -> (ok: bool)
    ensures
        ok == bearings_wf(bearings@),
{
    let mut k: usize = 0;
    while k < bearings.len()
        invariant
            k <= bearings.len(),
            forall|c: int| 0 <= c < k ==> (#[trigger] bearings@[c]).wf(),
        decreases bearings.len() - k,
    {
        if !bearings[k].is_wf() {
            return false;
        }
        k = k + 1;
    }
    true
}

/// How far the squared length of a heading vector may lie from one:
/// what rounding each component to a whole step can add or take away.
pub const UNIT_SLACK: i64 = 4_000_000;

/// The squared length of the vector `(cos, sin)`.
pub open spec fn squared_length(cos: int, sin: int) -> int {
    cos * cos + sin * sin
}

/// The unit vector of a heading: cosine and sine, each a fixed-point
/// fraction of one.
#[derive(Clone, Copy, Debug, PartialEq, Eq, Structural)]
pub struct Heading {
    pub cos: i64,
    pub sin: i64,
}

impl Heading {
    /// The vector is a unit vector, as nearly as whole steps allow: neither
    /// component exceeds one in magnitude, and the squared length lies
    /// within `UNIT_SLACK` of one.
    pub open spec fn wf(self) -> bool {
        &&& -SCALE <= self.cos <= SCALE
        &&& -SCALE <= self.sin <= SCALE
        &&& SCALE * SCALE - UNIT_SLACK <= squared_length(self.cos as int, self.sin as int)
            <= SCALE * SCALE + UNIT_SLACK
    }

    /// Tells whether the vector is a unit vector, as nearly as whole steps
    /// allow.
    pub fn is_wf(&self) -> (ok: bool)
        ensures
            ok == self.wf(),
    {
        if -SCALE <= self.cos && self.cos <= SCALE && -SCALE <= self.sin && self.sin <= SCALE {
            assert(0 <= self.cos * self.cos <= 1_000_000_000_000) by (nonlinear_arith)
                requires
                    -1_000_000 <= self.cos <= 1_000_000,
            ;
            assert(0 <= self.sin * self.sin <= 1_000_000_000_000) by (nonlinear_arith)
                requires
                    -1_000_000 <= self.sin <= 1_000_000,
            ;
            let length: i64 = self.cos * self.cos + self.sin * self.sin;
            SCALE * SCALE - UNIT_SLACK <= length && length <= SCALE * SCALE + UNIT_SLACK
        } else {
            false
        }
    }

    /// The heading with the given cosine and sine, if they make a unit
    /// vector, as nearly as whole steps allow.
    pub fn new(cos: i64, sin: i64) -> (h: Option<Heading>)
        ensures
            h == (if (Heading { cos, sin }).wf() {
                Some(Heading { cos, sin })
            } else {
                None
            }),
    {
        let h = Heading { cos, sin };
        if h.is_wf() {
            Some(h)
        } else {
            None
        }
    }
}

/// Every heading is well formed.
pub open spec fn headings_wf(headings: Seq<Heading>) -> bool {
    forall|k: int| 0 <= k < headings.len() ==> (#[trigger] headings[k]).wf()
}

/// Tells whether every heading is well formed.
pub fn headings_are_wf(headings: &Vec<Heading>) -> (ok: bool)
    ensures
        ok == headings_wf(headings@),
{
    let mut k: usize = 0;
    while k < headings.len()
        invariant
            k <= headings.len(),
            forall|c: int| 0 <= c < k ==> (#[trigger] headings@[c]).wf(),
        decreases headings.len() - k,
    {
        if !headings[k].is_wf() {
            return false;
        }
        k = k + 1;
    }
    true
}

/// The state shared by the steps of a tick.
#[derive(Clone, Copy, Debug, PartialEq, Eq, Structural)]
pub struct World {
    /// The radius of the safe region: the smaller of half the window's width
    /// and half its height.
    pub screen_half_extent: i64,
    /// Where the cursor was last seen, in window coordinates.
    pub last_cursor_pos: Point,
    /// The largest distance between two cats, as of the last tick.
    pub max_cat_pair_distance: i64,
    /// The point halfway between the two cats farthest apart.
    pub max_cat_pair_midpoint: Point,
    /// Ticks in which the flock was within the target separation.
    pub score: u64,
    /// Ticks played.
    pub possible_score: u64,
    /// Ticks since a cat was last woken.
    pub ticks_since_forced_wake: u64,
}

impl World {
    /// The safe radius fits the plane, the stored points lie on it, the
    /// spread is a distance, and no more ticks scored than were played.
    pub open spec fn wf(self) -> bool {
        &&& -WORLD_LIMIT <= self.screen_half_extent <= WORLD_LIMIT
        &&& self.last_cursor_pos.wf()
        &&& 0 <= self.max_cat_pair_distance < 3 * WORLD_LIMIT
        &&& self.max_cat_pair_midpoint.wf()
        &&& self.score <= self.possible_score
    }

    /// Tells whether the world is well formed.
    pub fn is_wf(&self) -> (ok: bool)
        ensures
            ok == self.wf(),
    {
        -WORLD_LIMIT <= self.screen_half_extent && self.screen_half_extent <= WORLD_LIMIT
            && self.last_cursor_pos.is_wf() && 0 <= self.max_cat_pair_distance
            && self.max_cat_pair_distance < 3 * WORLD_LIMIT && self.max_cat_pair_midpoint.is_wf()
            && self.score <= self.possible_score
    }
}

} // verus!
