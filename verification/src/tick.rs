//! A whole tick: what its four steps keep true of the scene, taken together.

use vstd::prelude::*;
use crate::config::Config;
use crate::geometry::{lemma_distance_bounds, lemma_midpoint_on_plane, midpoint_of, Point};
use crate::integrator::{flock_integrated, lemma_flock_integrated_keeps};
use crate::model::{flock_wf, Bearings, Cat, Heading, Player, World};
use crate::player::player_moved;
use crate::score::scored;
use crate::spread::{first_widest, pair_distance};
use crate::stir::{lemma_stir_keeps_flock, stirred, StirDraws};

verus! {

/// The scene is well formed: the world is, the player stands on the plane,
/// and every cat has its energy in `[0, chase_energy]`, its heading in
/// `(-PI, PI]`, its speed in `[0, max_speed]` and its place on the plane.
pub open spec fn scene_wf(cfg: Config, world: World, player: Player, cats: Seq<Cat>) -> bool {
    world.wf() && player.position.wf() && flock_wf(cats, cfg)
}

/// Whether the scene `(after, moved, result)` follows from the scene
/// `(before, player, cats)` by one tick: the player closes in on the cursor,
/// the cats are stirred while they see the player at `seen`, the integrator
/// moves them, and the tick is scored.
pub open spec fn ticked(
    cfg: Config,
    before: World,
    player: Player,
    cats: Seq<Cat>,
    cursor: Option<Point>,
    half_extent: Point,
    seen: Point,
    bearings: Seq<Bearings>,
    draws: StirDraws,
    headings: Seq<Heading>,
    samples: Seq<i64>,
    after: World,
    moved: Player,
    result: Seq<Cat>,
) -> bool {
    let cursor_pos = match cursor {
        Some(c) => c,
        None => before.last_cursor_pos,
    };
    let aimed = World { last_cursor_pos: cursor_pos, ..before };
    exists|stirred_world: World, stirred_cats: Seq<Cat>|
        {
            &&& moved == Player {
                position: player_moved(player.position, cursor_pos, half_extent),
                ..player
            }
            &&& #[trigger] stirred(
                cfg,
                aimed,
                cats,
                seen,
                bearings,
                draws,
                stirred_world,
                stirred_cats,
            )
            &&& flock_integrated(cfg, stirred_cats, headings, samples, result)
            &&& after == scored(cfg, stirred_world)
        }
}

/// A tick keeps a well-formed scene well formed: after every tick each
/// cat's heading lies in `(-PI, PI]`, its speed in `[0, max_speed]` and its
/// energy in `[0, chase_energy]`. The tick counts as played, and the score
/// grows by one at most.
pub proof fn lemma_tick_keeps_scene(
    cfg: Config,
    before: World,
    player: Player,
    cats: Seq<Cat>,
    cursor: Option<Point>,
    half_extent: Point,
    seen: Point,
    bearings: Seq<Bearings>,
    draws: StirDraws,
    headings: Seq<Heading>,
    samples: Seq<i64>,
    after: World,
    moved: Player,
    result: Seq<Cat>,
)
    requires
        cfg.wf(),
        scene_wf(cfg, before, player, cats),
        before.possible_score < u64::MAX,
        cursor matches Some(c) ==> c.wf(),
        ticked(
            cfg,
            before,
            player,
            cats,
            cursor,
            half_extent,
            seen,
            bearings,
            draws,
            headings,
            samples,
            after,
            moved,
            result,
        ),
    ensures
        scene_wf(cfg, after, moved, result),
        result.len() == cats.len(),
        after.possible_score == before.possible_score + 1,
        before.score <= after.score <= before.score + 1,
        after.screen_half_extent == before.screen_half_extent,
{
    let cursor_pos = match cursor {
        Some(c) => c,
        None => before.last_cursor_pos,
    };
    let aimed = World { last_cursor_pos: cursor_pos, ..before };
    let (stirred_world, stirred_cats) = choose|stirred_world: World, stirred_cats: Seq<Cat>|
        {
            &&& moved == Player {
                position: player_moved(player.position, cursor_pos, half_extent),
                ..player
            }
            &&& #[trigger] stirred(
                cfg,
                aimed,
                cats,
                seen,
                bearings,
                draws,
                stirred_world,
                stirred_cats,
            )
            &&& flock_integrated(cfg, stirred_cats, headings, samples, result)
            &&& after == scored(cfg, stirred_world)
        };
    lemma_stir_keeps_flock(cfg, aimed, cats, seen, bearings, draws, stirred_world, stirred_cats);
    lemma_flock_integrated_keeps(cfg, stirred_cats, headings, samples, result);
    if cats.len() >= 2 {
        let (i, j) = choose|i: int, j: int|
            #![trigger pair_distance(cats, i, j)]
            first_widest(cats, i, j) && pair_distance(cats, i, j)
                == stirred_world.max_cat_pair_distance && stirred_world.max_cat_pair_midpoint
                == midpoint_of(cats[i].position, cats[j].position);
        assert(cats[i].wf(cfg) && cats[j].wf(cfg));
        lemma_distance_bounds(cats[i].position, cats[j].position);
        lemma_midpoint_on_plane(cats[i].position, cats[j].position);
    }
}

} // verus!
