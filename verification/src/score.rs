//! Scoring: a tick scores when the flock is held within the target
//! separation, and the overlay says what there is to show.

use vstd::prelude::*;
use crate::config::Config;
use crate::geometry::Point;
use crate::model::World;
use crate::units::SCALE;

verus! {

/// A circle to draw.
#[derive(Clone, Copy, Debug, PartialEq, Eq, Structural)]
pub struct Circle {
    pub center: Point,
    pub radius: i64,
}

/// What the presentation shows after a tick.
#[derive(Clone, Copy, Debug, PartialEq, Eq, Structural)]
pub struct Overlay {
    /// Ticks that scored.
    pub score: u64,
    /// Ticks played.
    pub possible_score: u64,
    /// The share of ticks that scored, in fixed-point percent.
    pub percentage: i64,
    /// The flock's spread.
    pub max_cat_pair_distance: i64,
    /// Drawn around the flock while it is within the target separation.
    pub success: Option<Circle>,
}

/// The share `score / possible` in fixed-point percent, rounded down; zero
/// when nothing has been played.
pub open spec fn percentage_of(score: int, possible: int) -> int {
    if possible <= 0 {
        0
    } else {
        score * 100 * SCALE / possible
    }
}

/// Whether a tick with this spread scores.
pub open spec fn scores(cfg: Config, spread: int) -> bool {
    spread < cfg.target_separation
}

/// The world after a tick has been scored.
pub open spec fn scored(cfg: Config, world: World) -> World {
    World {
        possible_score: (world.possible_score + 1) as u64,
        score: if scores(cfg, world.max_cat_pair_distance as int) {
            (world.score + 1) as u64
        } else {
            world.score
        },
        ..world
    }
}

/// What is shown for a world.
pub open spec fn overlay_of(cfg: Config, world: World) -> Overlay {
    Overlay {
        score: world.score,
        possible_score: world.possible_score,
        percentage: percentage_of(world.score as int, world.possible_score as int) as i64,
        max_cat_pair_distance: world.max_cat_pair_distance,
        success: if scores(cfg, world.max_cat_pair_distance as int) {
            Some(
                Circle {
                    center: world.max_cat_pair_midpoint,
                    radius: (world.max_cat_pair_distance / 2) as i64,
                },
            )
        } else {
            None
        },
    }
}

/// A percentage lies between zero and one hundred.
pub proof fn lemma_percentage_bounds(score: int, possible: int)
    requires
        0 <= score <= possible,
    ensures
        0 <= percentage_of(score, possible) <= 100 * SCALE,
{
    if possible > 0 {
        let top = score * 100 * SCALE;
        assert(0 <= top <= possible * (100 * SCALE)) by (nonlinear_arith)
            requires
                top == score * 100 * SCALE,
                0 <= score <= possible,
        ;
        assert(top / possible <= 100 * SCALE) by (nonlinear_arith)
            requires
                0 <= top <= possible * (100 * SCALE),
                possible > 0,
        ;
        assert(0 <= top / possible) by (nonlinear_arith)
            requires
                0 <= top,
                possible > 0,
        ;
    }
}

/// The score never shrinks and grows by one at most; it grows exactly
/// when the spread is below the target separation.
pub proof fn lemma_score_monotone(cfg: Config, world: World)
    requires
        world.wf(),
        world.score < u64::MAX,
    ensures
        world.score <= scored(cfg, world).score <= world.score + 1,
        scored(cfg, world).score == world.score + 1 <==> world.max_cat_pair_distance
            < cfg.target_separation,
        scored(cfg, world).score == world.score <==> world.max_cat_pair_distance
            >= cfg.target_separation,
{
}

/// Every tick counts as played, and scoring changes nothing in the world but
/// the two counters.
pub proof fn lemma_tick_is_counted(cfg: Config, world: World)
    requires
        world.wf(),
        world.possible_score < u64::MAX,
    ensures
        scored(cfg, world).possible_score == world.possible_score + 1,
        scored(cfg, world) == (World {
            score: scored(cfg, world).score,
            possible_score: scored(cfg, world).possible_score,
            ..world
        }),
        scored(cfg, world).wf(),
{
}

/// The share of ticks that scored, in fixed-point percent; zero when nothing
/// has been played.
pub fn percentage(score: u64, possible: u64) -> (p: i64)
    requires
        score <= possible,
    ensures
        p == percentage_of(score as int, possible as int),
        0 <= p <= 100 * SCALE,
{
    if possible == 0 {
        return 0;
    }
    proof {
        lemma_percentage_bounds(score as int, possible as int);
    }
    let top: u128 = score as u128 * 100 * (SCALE as u128);
    (top / possible as u128) as i64
}

/// Scores the tick and reports what to show: the counters, the percentage,
/// the spread, and a circle of half the spread's radius around the midpoint
/// of the two cats farthest apart if the tick scored.
pub fn draw_overlay(cfg: &Config, world: &mut World) -> (overlay: Overlay)
    requires
        old(world).wf(),
        old(world).possible_score < u64::MAX,
    ensures
        *final(world) == scored(*cfg, *old(world)),
        overlay == overlay_of(*cfg, *final(world)),
        final(world).possible_score == old(world).possible_score + 1,
        old(world).score <= final(world).score <= old(world).score + 1,
        final(world).score > old(world).score <==> old(world).max_cat_pair_distance
            < cfg.target_separation,
        overlay.success.is_some() <==> old(world).max_cat_pair_distance < cfg.target_separation,
        final(world).wf(),
{
    world.possible_score = world.possible_score + 1;
    let mut success: Option<Circle> = None;
    if world.max_cat_pair_distance < cfg.target_separation {
        success =
        Some(Circle { center: world.max_cat_pair_midpoint, radius: world.max_cat_pair_distance / 2 });
        world.score = world.score + 1;
    }
    Overlay {
        score: world.score,
        possible_score: world.possible_score,
        percentage: percentage(world.score, world.possible_score),
        max_cat_pair_distance: world.max_cat_pair_distance,
        success,
    }
}

} // verus!
