//! The opening scene: an empty score, the player at its starting place, and
//! the cats scattered around the centre of the screen, asleep.

use rand::rngs::StdRng;
use vstd::prelude::*;
use crate::config::Config;
use crate::geometry::{in_world, origin, Point, WORLD_LIMIT};
use crate::model::{flock_wf, Behavior, Cat, Player, World};
use crate::random::{draw_fraction, is_fraction};
use crate::units::{clamp_direction, lemma_normalized_range, normalized, quotient, SCALE, TAU};

verus! {

/// Where the player starts, on either axis; the cursor is taken to start at
/// the same coordinates of the window.
pub const START: i64 = 200_000_000;

/// The radius the player is drawn with.
pub const PLAYER_RADIUS: i64 = 30_000_000;

/// The radius a cat is drawn with.
pub const CAT_RADIUS: i64 = 10_000_000;

/// The three samples a cat is placed with, each a fraction in `[0, 1)`.
#[derive(Clone, Copy, Debug, PartialEq, Eq, Structural)]
pub struct SpawnDraw {
    pub x: i64,
    pub y: i64,
    pub direction: i64,
}

impl SpawnDraw {
    /// Every sample is a fraction in `[0, 1)`.
    pub open spec fn wf(self) -> bool {
        is_fraction(self.x as int) && is_fraction(self.y as int) && is_fraction(
            self.direction as int,
        )
    }

    /// Tells whether every sample is a fraction in `[0, 1)`.
    pub fn is_wf(&self) -> (ok: bool)
        ensures
            ok == self.wf(),
    {
        0 <= self.x && self.x < SCALE && 0 <= self.y && self.y < SCALE && 0 <= self.direction
            && self.direction < SCALE
    }
}

/// Every cat's samples are fractions in `[0, 1)`.
pub open spec fn spawn_draws_wf(draws: Seq<SpawnDraw>) -> bool {
    forall|k: int| 0 <= k < draws.len() ==> (#[trigger] draws[k]).wf()
}

/// The world, the player and the flock.
#[derive(Debug)]
pub struct Scene {
    pub world: World,
    pub player: Player,
    pub cats: Vec<Cat>,
}

/// How far from the centre a cat may start along an axis: a quarter of the
/// window's half extent.
pub open spec fn reach_of(half: int) -> int {
    quotient(half, 4)
}

/// A coordinate spread evenly over `[-reach, reach)` by a sample in
/// `[0, 1)`; zero where there is no reach.
pub open spec fn scattered(reach: int, sample: int) -> int {
    if reach > 0 {
        -reach + quotient(2 * reach * sample, SCALE as int)
    } else {
        0
    }
}

/// A heading spread evenly over the full turn by a sample in `[0, 1)`, in
/// `(-PI, PI]`.
pub open spec fn first_heading(sample: int) -> int {
    normalized(quotient(TAU * sample, SCALE as int))
}

/// The cat placed with the given samples in a window of the given half
/// extent: within a quarter of the half extent of the centre, asleep and
/// standing still.
pub open spec fn spawned(half_extent: Point, draw: SpawnDraw) -> Cat {
    Cat {
        position: Point {
            x: scattered(reach_of(half_extent.x as int), draw.x as int) as i64,
            y: scattered(reach_of(half_extent.y as int), draw.y as int) as i64,
        },
        radius: CAT_RADIUS,
        behavior: Behavior { energy: 0, direction: first_heading(draw.direction as int) as i64, speed: 0 },
    }
}

/// The world before the first tick: the safe radius is the smaller of the
/// window's half extents, nothing is scored, and no spread is known.
pub open spec fn opening_world(half_extent: Point) -> World {
    World {
        screen_half_extent: if half_extent.x <= half_extent.y {
            half_extent.x
        } else {
            half_extent.y
        },
        last_cursor_pos: Point { x: START, y: START },
        max_cat_pair_distance: 0,
        max_cat_pair_midpoint: origin(),
        score: 0,
        possible_score: 0,
        ticks_since_forced_wake: 0,
    }
}

/// The player before the first tick.
pub open spec fn opening_player() -> Player {
    Player { position: Point { x: START, y: START }, radius: PLAYER_RADIUS }
}

/// A scattered coordinate lies in `[-reach, reach)`, or is zero where there
/// is no reach.
pub proof fn lemma_scattered_bounds(reach: int, sample: int)
    requires
        is_fraction(sample),
        reach <= WORLD_LIMIT,
    ensures
        reach > 0 ==> -reach <= scattered(reach, sample) < reach,
        reach <= 0 ==> scattered(reach, sample) == 0,
        reach > 0 ==> 0 <= 2 * reach * sample < 2 * reach * SCALE,
{
    if reach > 0 {
        let wide = 2 * reach;
        let prod = wide * sample;
        assert(0 <= prod <= wide * 999_999) by (nonlinear_arith)
            requires
                prod == wide * sample,
                0 <= sample <= 999_999,
                wide > 0,
        ;
        assert(prod == 2 * reach * sample) by (nonlinear_arith)
            requires
                prod == wide * sample,
                wide == 2 * reach,
        ;
    }
}

/// A freshly placed cat is asleep, stands still within a quarter of the
/// window's half extent of the centre, and is well formed.
pub proof fn lemma_spawned_is_fresh(cfg: Config, half_extent: Point, draw: SpawnDraw)
    requires
        cfg.wf(),
        half_extent.wf(),
        draw.wf(),
    ensures
        spawned(half_extent, draw).wf(cfg),
        spawned(half_extent, draw).behavior.energy == 0,
        spawned(half_extent, draw).behavior.speed == 0,
        reach_of(half_extent.x as int) > 0 ==> -reach_of(half_extent.x as int) <= spawned(
            half_extent,
            draw,
        ).position.x < reach_of(half_extent.x as int),
        reach_of(half_extent.y as int) > 0 ==> -reach_of(half_extent.y as int) <= spawned(
            half_extent,
            draw,
        ).position.y < reach_of(half_extent.y as int),
{
    lemma_scattered_bounds(reach_of(half_extent.x as int), draw.x as int);
    lemma_scattered_bounds(reach_of(half_extent.y as int), draw.y as int);
    lemma_normalized_range(quotient(TAU * draw.direction, SCALE as int));
}

/// One scattered coordinate.
fn scatter(half: i64, sample: i64) -> (c: i64)
    requires
        in_world(half as int),
        is_fraction(sample as int),
    ensures
        c == scattered(reach_of(half as int), sample as int),
        in_world(c as int),
{
    let reach: i64 = half / 4;
    if reach > 0 {
        proof {
            lemma_scattered_bounds(reach as int, sample as int);
        }
        -reach + 2 * reach * sample / SCALE
    } else {
        0
    }
}

/// Places one cat with the given samples.
pub fn spawn_cat(cfg: &Config, half_extent: &Point, draw: &SpawnDraw) -> (cat: Cat)
    requires
        cfg.wf(),
        half_extent.wf(),
        draw.wf(),
    ensures
        cat == spawned(*half_extent, *draw),
        cat.wf(*cfg),
{
    let mut direction: i64 = TAU * draw.direction / SCALE;
    clamp_direction(&mut direction);
    proof {
        lemma_spawned_is_fresh(*cfg, *half_extent, *draw);
    }
    Cat {
        position: Point { x: scatter(half_extent.x, draw.x), y: scatter(half_extent.y, draw.y) },
        radius: CAT_RADIUS,
        behavior: Behavior { energy: 0, direction, speed: 0 },
    }
}

/// Whether `scene` is the opening scene for the given samples: the opening
/// world, the opening player, and one freshly placed cat for each draw.
pub open spec fn opens_with(half_extent: Point, draws: Seq<SpawnDraw>, scene: Scene) -> bool {
    &&& scene.world == opening_world(half_extent)
    &&& scene.player == opening_player()
    &&& scene.cats@.len() == draws.len()
    &&& forall|k: int|
        0 <= k < draws.len() ==> #[trigger] scene.cats@[k] == spawned(half_extent, draws[k])
}

/// Builds the opening scene from the given samples, one cat for each draw.
/// `half_extent` is half the window's width and half its height.
pub fn setup_with(cfg: &Config, half_extent: &Point, draws: &Vec<SpawnDraw>) -> (scene: Scene)
    requires
        cfg.wf(),
        half_extent.wf(),
        spawn_draws_wf(draws@),
    ensures
        opens_with(*half_extent, draws@, scene),
        scene.world.wf(),
        scene.player.position.wf(),
        flock_wf(scene.cats@, *cfg),
{
    let mut cats: Vec<Cat> = Vec::new();
    let mut k: usize = 0;
    while k < draws.len()
        invariant
            k <= draws.len(),
            cats@.len() == k,
            cfg.wf(),
            half_extent.wf(),
            spawn_draws_wf(draws@),
            flock_wf(cats@, *cfg),
            forall|c: int| 0 <= c < k ==> #[trigger] cats@[c] == spawned(*half_extent, draws@[c]),
        decreases draws.len() - k,
    {
        let cat: Cat = spawn_cat(cfg, half_extent, &draws[k]);
        cats.push(cat);
        k = k + 1;
    }
    let start = Point { x: START, y: START };
    Scene {
        world: World {
            screen_half_extent: if half_extent.x <= half_extent.y {
                half_extent.x
            } else {
                half_extent.y
            },
            last_cursor_pos: start,
            max_cat_pair_distance: 0,
            max_cat_pair_midpoint: Point { x: 0, y: 0 },
            score: 0,
            possible_score: 0,
            ticks_since_forced_wake: 0,
        },
        player: Player { position: start, radius: PLAYER_RADIUS },
        cats,
    }
}

/// Builds the opening scene with `cat_count` cats placed by samples taken
/// from `rng`. Whatever is drawn, the scene is that of `setup_with` under
/// some samples in `[0, 1)`.
pub fn setup(cfg: &Config, half_extent: &Point, rng: &mut StdRng) -> (scene: Scene)
    requires
        cfg.wf(),
        half_extent.wf(),
    ensures
        exists|draws: Seq<SpawnDraw>|
            draws.len() == cfg.cat_count && spawn_draws_wf(draws) && #[trigger] opens_with(
                *half_extent,
                draws,
                scene,
            ),
        scene.cats@.len() == cfg.cat_count,
        scene.world == opening_world(*half_extent),
        scene.player == opening_player(),
        scene.world.wf(),
        scene.player.position.wf(),
        flock_wf(scene.cats@, *cfg),
{
    let mut draws: Vec<SpawnDraw> = Vec::new();
    let mut k: usize = 0;
    while k < cfg.cat_count
        invariant
            k <= cfg.cat_count,
            draws@.len() == k,
            spawn_draws_wf(draws@),
        decreases cfg.cat_count - k,
    {
        let x: i64 = draw_fraction(rng);
        let y: i64 = draw_fraction(rng);
        let direction: i64 = draw_fraction(rng);
        draws.push(SpawnDraw { x, y, direction });
        k = k + 1;
    }
    let scene = setup_with(cfg, half_extent, &draws);
    scene
}

} // verus!
