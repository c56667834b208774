//! The cats' behaviour step: play between pairs, the flock's spread, and each
//! cat's reaction to the player, to the edge of the screen and to chance.

use vstd::prelude::*;
use crate::config::Config;
use crate::geometry::{distance_between, origin, Point, WORLD_LIMIT};
use crate::model::{flock_wf, Bearings, Behavior, Cat};
use crate::random::{fractions, is_fraction};
use crate::units::{clamp_direction, magnitude, normalized, quotient, PI, SCALE, TAU};

verus! {

/// The larger of two values.
pub open spec fn larger(a: int, b: int) -> int {
    if a >= b {
        a
    } else {
        b
    }
}

/// Two flocks hold the same cats at the same places: they differ in
/// behaviour at most.
pub open spec fn same_bodies(a: Seq<Cat>, b: Seq<Cat>) -> bool {
    &&& a.len() == b.len()
    &&& forall|k: int|
        0 <= k < a.len() ==> (#[trigger] a[k]).position == b[k].position && a[k].radius
            == b[k].radius
}

/// Whether two cats `d` apart play, given the pair's sample: they must be
/// strictly between the repel and the attract distance, and the sample must
/// not exceed the chance of play.
pub open spec fn pair_plays(cfg: Config, d: int, sample: int) -> bool {
    cfg.cat_repel_dist < d < cfg.cat_attract_dist && sample <= cfg.does_cat_play
}

/// The behaviour that two playing cats share afterwards: the mean of their
/// headings, the larger of their energies and the larger of their speeds.
pub open spec fn shared_behavior(a: Behavior, b: Behavior) -> Behavior {
    Behavior {
        energy: larger(a.energy as int, b.energy as int) as i64,
        direction: quotient(a.direction + b.direction, 2) as i64,
        speed: larger(a.speed as int, b.speed as int) as i64,
    }
}

/// The flock after cats `i` and `j` have met, with the pair's sample.
pub open spec fn met(cfg: Config, cats: Seq<Cat>, i: int, j: int, sample: int) -> Seq<Cat> {
    if pair_plays(cfg, distance_between(cats[i].position, cats[j].position), sample) {
        let shared = shared_behavior(cats[i].behavior, cats[j].behavior);
        cats.update(i, Cat { behavior: shared, ..cats[i] }).update(
            j,
            Cat { behavior: shared, ..cats[j] },
        )
    } else {
        cats
    }
}

/// The flock after cat `i` has met, in turn, each cat from `i + 1` up to but
/// not including `j`. The sample of the pair `(i, c)` is `row[c - i - 1]`.
pub open spec fn after_row(cfg: Config, cats: Seq<Cat>, row: Seq<i64>, i: int, j: int) -> Seq<Cat>
    decreases j - i,
{
    if j <= i + 1 {
        cats
    } else {
        met(cfg, after_row(cfg, cats, row, i, j - 1), i, j - 1, row[j - 2 - i] as int)
    }
}

/// The flock after each cat below `i` has met every cat after it.
pub open spec fn after_rows(cfg: Config, cats: Seq<Cat>, play: Seq<Vec<i64>>, i: int) -> Seq<Cat>
    decreases i,
{
    if i <= 0 {
        cats
    } else {
        after_row(cfg, after_rows(cfg, cats, play, i - 1), play[i - 1]@, i - 1, cats.len() as int)
    }
}

/// The flock after every pair of distinct cats has met once, in the order
/// `(0, 1), (0, 2), .., (1, 2), ..`.
pub open spec fn after_play(cfg: Config, cats: Seq<Cat>, play: Seq<Vec<i64>>) -> Seq<Cat> {
    after_rows(cfg, cats, play, cats.len() as int)
}

/// The play samples fit a flock of `n`: one row for each cat, and in row `i`
/// one fraction for each cat after `i`.
pub open spec fn play_wf(play: Seq<Vec<i64>>, n: int) -> bool {
    &&& play.len() == n
    &&& forall|i: int|
        0 <= i < n ==> (#[trigger] play[i])@.len() == n - 1 - i && fractions(play[i]@)
}

/// A meeting keeps the cats where they are and keeps a well-formed flock
/// well formed.
pub proof fn lemma_met_keeps(cfg: Config, cats: Seq<Cat>, i: int, j: int, sample: int)
    requires
        0 <= i < j < cats.len(),
    ensures
        same_bodies(met(cfg, cats, i, j, sample), cats),
        flock_wf(cats, cfg) ==> flock_wf(met(cfg, cats, i, j, sample), cfg),
{
}

/// Two cats exchange behaviour if they are at playing distance and the sample
/// allows it; otherwise nothing changes.
pub fn meet(cfg: &Config, cats: &mut Vec<Cat>, i: usize, j: usize, sample: i64)
    requires
        i < j < old(cats).len(),
        flock_wf(old(cats)@, *cfg),
    ensures
        final(cats)@ == met(*cfg, old(cats)@, i as int, j as int, sample as int),
        same_bodies(final(cats)@, old(cats)@),
        flock_wf(final(cats)@, *cfg),
{
    proof {
        lemma_met_keeps(*cfg, cats@, i as int, j as int, sample as int);
    }
    let mut first: Cat = cats[i];
    let mut second: Cat = cats[j];
    let d: i64 = first.position.distance(&second.position);
    if d > cfg.cat_repel_dist && d < cfg.cat_attract_dist && sample <= cfg.does_cat_play {
        let shared = Behavior {
            energy: if first.behavior.energy >= second.behavior.energy {
                first.behavior.energy
            } else {
                second.behavior.energy
            },
            direction: (first.behavior.direction + second.behavior.direction) / 2,
            speed: if first.behavior.speed >= second.behavior.speed {
                first.behavior.speed
            } else {
                second.behavior.speed
            },
        };
        first.behavior = shared;
        second.behavior = shared;
        cats[i] = first;
        cats[j] = second;
    }
}

/// Every pair of distinct cats meets once, in the order `(0, 1), (0, 2), ..,
/// (1, 2), ..`; the sample of the pair `(i, j)` is `play[i][j - i - 1]`.
pub fn play_round(cfg: &Config, cats: &mut Vec<Cat>, play: &Vec<Vec<i64>>)
    requires
        flock_wf(old(cats)@, *cfg),
        play_wf(play@, old(cats).len() as int),
    ensures
        final(cats)@ == after_play(*cfg, old(cats)@, play@),
        same_bodies(final(cats)@, old(cats)@),
        flock_wf(final(cats)@, *cfg),
{
    let ghost start = cats@;
    let n: usize = cats.len();
    let mut i: usize = 0;
    while i < n
        invariant
            i <= n,
            n == start.len(),
            cats@ == after_rows(*cfg, start, play@, i as int),
            same_bodies(cats@, start),
            flock_wf(cats@, *cfg),
            play_wf(play@, n as int),
        decreases n - i,
    {
        let ghost row_start = cats@;
        let mut j: usize = i + 1;
        while j < n
            invariant
                i < j <= n,
                n == start.len(),
                cats@ == after_row(*cfg, row_start, play@[i as int]@, i as int, j as int),
                same_bodies(cats@, start),
                flock_wf(cats@, *cfg),
                play_wf(play@, n as int),
            decreases n - j,
        {
            let sample: i64 = play[i][j - i - 1];
            meet(cfg, cats, i, j, sample);
            j = j + 1;
        }
        i = i + 1;
    }
}

/// A cat near the edge turns when the angle between the bearing from the
/// centre and its heading is narrower than this: half a turn divided by 1.8.
pub const NEAR_CONE: i64 = 1_745_329;

/// A cat near the edge turns the other way when that angle is wider than
/// this: three half turns divided by 2.2.
pub const FAR_CONE: i64 = 4_283_990;

/// How far a cat near the edge turns, given the difference `diff` between
/// the bearing from the centre and its heading, not reduced by whole turns.
/// Inside the near cone the cat turns against the sign of the difference,
/// beyond the far cone it turns with it, and in between it keeps its heading.
pub open spec fn edge_turn(cfg: Config, diff: int) -> int {
    if magnitude(diff) < NEAR_CONE {
        if diff > 0 {
            -cfg.turn_away
        } else {
            cfg.turn_away as int
        }
    } else if magnitude(diff) > FAR_CONE {
        if diff > 0 {
            cfg.turn_away as int
        } else {
            -cfg.turn_away
        }
    } else {
        0
    }
}

/// The behaviour of a cat after it has looked at the edge. `from_origin` is
/// its distance from the centre and `from_center` the bearing from the
/// centre to the cat. Closer to the centre than the safe radius less the
/// edge band, nothing changes; farther out the cat turns by `edge_turn`; at
/// the safe radius or beyond it is also startled.
pub open spec fn edges_avoided(
    cfg: Config,
    b: Behavior,
    from_origin: int,
    from_center: int,
    screen_size: int,
) -> Behavior {
    if from_origin < screen_size - cfg.edge_repel {
        b
    } else {
        let turned = (b.direction + edge_turn(cfg, from_center - b.direction)) as i64;
        if from_origin >= screen_size {
            Behavior { energy: cfg.chase_energy, direction: turned, speed: cfg.chase_speed }
        } else {
            Behavior { direction: turned, ..b }
        }
    }
}

/// The jitter that a sample in `[0, 1)` adds to a heading: the sample less
/// one half, times the width of the jitter, rounded toward zero.
pub open spec fn jitter_of(cfg: Config, sample: int) -> int {
    quotient((sample - SCALE / 2) * cfg.cat_direction_change, SCALE as int)
}

/// Whether a cat wakes: its sample does not exceed the chance of waking, or
/// it is the cat chosen to be woken.
pub open spec fn wakes(cfg: Config, forced: bool, sample: int) -> bool {
    sample <= cfg.wake_cat || forced
}

/// The behaviour of a cat after it has been startled by the player, if the
/// player is closer than the chase distance: it heads straight away, with
/// chase energy and chase speed.
pub open spec fn chased(cfg: Config, cat: Cat, player: Point, away: int) -> Behavior {
    if distance_between(cat.position, player) < cfg.chase_distance {
        Behavior { energy: cfg.chase_energy, direction: away as i64, speed: cfg.chase_speed }
    } else {
        cat.behavior
    }
}

/// The behaviour of a cat at the end of the step: startled by the player if
/// close, woken if `wakes`, its heading jittered, turned at the edge, and
/// brought back into `(-PI, PI]`.
pub open spec fn reacted(
    cfg: Config,
    cat: Cat,
    player: Point,
    bearings: Bearings,
    screen_size: int,
    forced: bool,
    wake_sample: int,
    jitter_sample: int,
) -> Behavior {
    let startled = chased(cfg, cat, player, bearings.away_from_player as int);
    let woken = if wakes(cfg, forced, wake_sample) {
        Behavior { energy: cfg.chase_energy, ..startled }
    } else {
        startled
    };
    let jittered = Behavior {
        direction: (woken.direction + jitter_of(cfg, jitter_sample)) as i64,
        ..woken
    };
    let turned = edges_avoided(
        cfg,
        jittered,
        distance_between(cat.position, origin()),
        bearings.from_center as int,
        screen_size,
    );
    Behavior { direction: normalized(turned.direction as int) as i64, ..turned }
}

/// The jitter is at most half the jitter's width, either way, and the
/// product it is computed from is small.
pub proof fn lemma_jitter_bounds(cfg: Config, sample: int)
    requires
        cfg.wf(),
        is_fraction(sample),
    ensures
        -(cfg.cat_direction_change as int) <= 2 * jitter_of(cfg, sample)
            <= cfg.cat_direction_change,
        -10_000_000_000_000 <= (sample - SCALE / 2) * cfg.cat_direction_change
            <= 10_000_000_000_000,
{
    let c = cfg.cat_direction_change as int;
    let u = sample - SCALE / 2;
    let prod = u * c;
    assert(-500_000 * c <= prod <= 500_000 * c) by (nonlinear_arith)
        requires
            prod == u * c,
            -500_000 <= u <= 500_000,
            0 <= c,
    ;
}

/// Keeps a cat away from the edge of the screen: in the outer band it turns,
/// and outside the safe radius it is startled as well.
pub fn avoid_edges(
    cfg: &Config,
    position: &Point,
    from_center: i64,
    behavior: &mut Behavior,
    screen_size: i64,
)
    requires
        cfg.wf(),
        position.wf(),
        -PI <= from_center <= PI,
        -TAU <= old(behavior).direction <= TAU,
        -WORLD_LIMIT <= screen_size <= WORLD_LIMIT,
    ensures
        *final(behavior) == edges_avoided(
            *cfg,
            *old(behavior),
            distance_between(*position, origin()),
            from_center as int,
            screen_size as int,
        ),
{
    let distance_to_center: i64 = position.length();
    if distance_to_center < screen_size - cfg.edge_repel {
        return ;
    }
    let angle_diff: i64 = from_center - behavior.direction;
    let size: i64 = if angle_diff >= 0 {
        angle_diff
    } else {
        -angle_diff
    };
    if size < NEAR_CONE {
        if angle_diff > 0 {
            behavior.direction = behavior.direction - cfg.turn_away;
        } else {
            behavior.direction = behavior.direction + cfg.turn_away;
        }
    } else if size > FAR_CONE {
        if angle_diff > 0 {
            behavior.direction = behavior.direction + cfg.turn_away;
        } else {
            behavior.direction = behavior.direction - cfg.turn_away;
        }
    }
    if distance_to_center >= screen_size {
        behavior.energy = cfg.chase_energy;
        behavior.speed = cfg.chase_speed;
    }
}

/// One cat's reaction to the player, to chance and to the edge of the
/// screen. Tells whether the cat woke.
pub fn react(
    cfg: &Config,
    cat: &mut Cat,
    player: &Point,
    bearings: &Bearings,
    screen_size: i64,
    forced: bool,
    wake_sample: i64,
    jitter_sample: i64,
) -> (woke: bool)
    requires
        cfg.wf(),
        old(cat).wf(*cfg),
        player.wf(),
        bearings.wf(),
        -WORLD_LIMIT <= screen_size <= WORLD_LIMIT,
        is_fraction(jitter_sample as int),
    ensures
        *final(cat) == (Cat {
            behavior: reacted(
                *cfg,
                *old(cat),
                *player,
                *bearings,
                screen_size as int,
                forced,
                wake_sample as int,
                jitter_sample as int,
            ),
            ..*old(cat)
        }),
        woke == wakes(*cfg, forced, wake_sample as int),
        final(cat).wf(*cfg),
{
    let mut b: Behavior = cat.behavior;
    let player_cat_dist: i64 = cat.position.distance(player);
    if player_cat_dist < cfg.chase_distance {
        b.direction = bearings.away_from_player;
        b.energy = cfg.chase_energy;
        b.speed = cfg.chase_speed;
    }
    let woke: bool = wake_sample <= cfg.wake_cat || forced;
    if woke {
        b.energy = cfg.chase_energy;
    }
    proof {
        lemma_jitter_bounds(*cfg, jitter_sample as int);
    }
    b.direction = b.direction + (jitter_sample - SCALE / 2) * cfg.cat_direction_change / SCALE;
    avoid_edges(cfg, &cat.position, bearings.from_center, &mut b, screen_size);
    let mut direction: i64 = b.direction;
    clamp_direction(&mut direction);
    b.direction = direction;
    cat.behavior = b;
    woke
}

/// While cat `i` meets the cats after it, every cat stays where it is and a
/// well-formed flock stays well formed.
pub proof fn lemma_after_row_keeps(cfg: Config, cats: Seq<Cat>, row: Seq<i64>, i: int, j: int)
    requires
        0 <= i,
        j <= cats.len(),
    ensures
        same_bodies(after_row(cfg, cats, row, i, j), cats),
        flock_wf(cats, cfg) ==> flock_wf(after_row(cfg, cats, row, i, j), cfg),
    decreases j - i,
{
    if j > i + 1 {
        lemma_after_row_keeps(cfg, cats, row, i, j - 1);
        lemma_met_keeps(cfg, after_row(cfg, cats, row, i, j - 1), i, j - 1, row[j - 2 - i] as int);
    }
}

/// While the cats below `i` meet the cats after them, every cat stays
/// where it is and a well-formed flock stays well formed.
pub proof fn lemma_after_rows_keeps(cfg: Config, cats: Seq<Cat>, play: Seq<Vec<i64>>, i: int)
    requires
        i <= cats.len(),
    ensures
        same_bodies(after_rows(cfg, cats, play, i), cats),
        flock_wf(cats, cfg) ==> flock_wf(after_rows(cfg, cats, play, i), cfg),
    decreases i,
{
    if i > 0 {
        lemma_after_rows_keeps(cfg, cats, play, i - 1);
        lemma_after_row_keeps(
            cfg,
            after_rows(cfg, cats, play, i - 1),
            play[i - 1]@,
            i - 1,
            cats.len() as int,
        );
    }
}

/// Play moves no cat, and keeps every energy, heading and speed within its
/// range.
pub proof fn lemma_after_play_keeps(cfg: Config, cats: Seq<Cat>, play: Seq<Vec<i64>>)
    ensures
        same_bodies(after_play(cfg, cats, play), cats),
        flock_wf(cats, cfg) ==> flock_wf(after_play(cfg, cats, play), cfg),
{
    lemma_after_rows_keeps(cfg, cats, play, cats.len() as int);
}

/// Two cats no farther apart than the repel distance, or no closer than the
/// attract distance, do not play, whatever the sample.
pub proof fn lemma_no_play_outside_band(cfg: Config, cats: Seq<Cat>, i: int, j: int, sample: int)
    requires
        distance_between(cats[i].position, cats[j].position) <= cfg.cat_repel_dist
            || distance_between(cats[i].position, cats[j].position) >= cfg.cat_attract_dist,
    ensures
        met(cfg, cats, i, j, sample) == cats,
{
}

/// Two cats that play end with the same heading, and each with the larger of
/// their energies and the larger of their speeds.
pub proof fn lemma_play_shares(cfg: Config, cats: Seq<Cat>, i: int, j: int, sample: int)
    requires
        0 <= i < j < cats.len(),
        pair_plays(cfg, distance_between(cats[i].position, cats[j].position), sample),
    ensures
        met(cfg, cats, i, j, sample)[i].behavior == met(cfg, cats, i, j, sample)[j].behavior,
        met(cfg, cats, i, j, sample)[i].behavior.energy == larger(
            cats[i].behavior.energy as int,
            cats[j].behavior.energy as int,
        ),
        met(cfg, cats, i, j, sample)[i].behavior.speed == larger(
            cats[i].behavior.speed as int,
            cats[j].behavior.speed as int,
        ),
{
}

/// A reaction leaves energy in `[0, chase_energy]`, the heading in
/// `(-PI, PI]` and the speed in `[0, max_speed]`.
pub proof fn lemma_reacted_in_range(
    cfg: Config,
    cat: Cat,
    player: Point,
    bearings: Bearings,
    screen_size: int,
    forced: bool,
    wake_sample: int,
    jitter_sample: int,
)
    requires
        cfg.wf(),
        cat.behavior.wf(cfg),
    ensures
        reacted(cfg, cat, player, bearings, screen_size, forced, wake_sample, jitter_sample).wf(
            cfg,
        ),
{
}

/// The heading that a startled cat ends the step with, before it is
/// brought back into `(-PI, PI]`: straight away from the player, plus the
/// jitter, plus the turn at the edge where the cat is in the outer band.
pub open spec fn fleeing_heading(
    cfg: Config,
    cat: Cat,
    bearings: Bearings,
    screen_size: int,
    jitter_sample: int,
) -> int {
    let jittered = bearings.away_from_player + jitter_of(cfg, jitter_sample);
    if distance_between(cat.position, origin()) < screen_size - cfg.edge_repel {
        jittered
    } else {
        jittered + edge_turn(cfg, bearings.from_center - jittered)
    }
}

/// A cat closer to the player than the chase distance ends the step with
/// chase energy and chase speed, whatever else happens to it, and with the
/// heading `fleeing_heading`, normalized. With no jitter and no turn at the
/// edge that is the bearing straight away from the player.
pub proof fn lemma_chase_overrides(
    cfg: Config,
    cat: Cat,
    player: Point,
    bearings: Bearings,
    screen_size: int,
    forced: bool,
    wake_sample: int,
    jitter_sample: int,
)
    requires
        cfg.wf(),
        bearings.wf(),
        is_fraction(jitter_sample),
        distance_between(cat.position, player) < cfg.chase_distance,
    ensures
        ({
            let after = reacted(
                cfg,
                cat,
                player,
                bearings,
                screen_size,
                forced,
                wake_sample,
                jitter_sample,
            );
            &&& after.energy == cfg.chase_energy
            &&& after.speed == cfg.chase_speed
            &&& after.direction == normalized(
                fleeing_heading(cfg, cat, bearings, screen_size, jitter_sample),
            )
            &&& (jitter_of(cfg, jitter_sample) == 0 && distance_between(cat.position, origin())
                < screen_size - cfg.edge_repel && -PI < bearings.away_from_player)
                ==> after.direction == bearings.away_from_player
        }),
{
    lemma_jitter_bounds(cfg, jitter_sample);
}

/// A cat that wakes ends the step with chase energy.
pub proof fn lemma_woken_has_energy(
    cfg: Config,
    cat: Cat,
    player: Point,
    bearings: Bearings,
    screen_size: int,
    forced: bool,
    wake_sample: int,
    jitter_sample: int,
)
    requires
        wakes(cfg, forced, wake_sample),
    ensures
        reacted(
            cfg,
            cat,
            player,
            bearings,
            screen_size,
            forced,
            wake_sample,
            jitter_sample,
        ).energy == cfg.chase_energy,
{
}

/// A cat at the safe radius or beyond it ends the step with chase energy and
/// chase speed.
pub proof fn lemma_outside_is_startled(
    cfg: Config,
    cat: Cat,
    player: Point,
    bearings: Bearings,
    screen_size: int,
    forced: bool,
    wake_sample: int,
    jitter_sample: int,
)
    requires
        0 <= cfg.edge_repel,
        distance_between(cat.position, origin()) >= screen_size,
    ensures
        reacted(
            cfg,
            cat,
            player,
            bearings,
            screen_size,
            forced,
            wake_sample,
            jitter_sample,
        ).energy == cfg.chase_energy,
        reacted(
            cfg,
            cat,
            player,
            bearings,
            screen_size,
            forced,
            wake_sample,
            jitter_sample,
        ).speed == cfg.chase_speed,
{
}

} // verus!
