//! The cats' behaviour step as a whole: the flock's spread is measured,
//! every pair of cats meets, one cat is woken if the flock has slept too
//! long, and every cat reacts.

use rand::rngs::StdRng;
use vstd::prelude::*;
use crate::config::Config;
use crate::flock::{
    after_play, fleeing_heading, lemma_after_play_keeps, lemma_chase_overrides,
    lemma_outside_is_startled, lemma_reacted_in_range, lemma_woken_has_energy, play_round,
    play_wf, react, reacted, same_bodies, wakes,
};
use crate::geometry::{distance_between, origin, Point, WORLD_LIMIT};
use crate::model::{bearings_wf, flock_wf, Bearings, Cat, World};
use crate::random::{draw_fractions, draw_index, fractions, is_fraction};
use crate::spread::{is_spread, measure_spread, Spread};
use crate::units::{normalized, SCALE};

verus! {

/// The random draws of one behaviour step.
#[derive(Debug)]
pub struct StirDraws {
    /// For each cat `i`, one sample for each cat after it: the pair `(i, j)`
    /// plays only if `play[i][j - i - 1]` does not exceed the chance of play.
    pub play: Vec<Vec<i64>>,
    /// The cat to wake if the flock has slept too long.
    pub pick: usize,
    /// For each cat, the sample that decides whether it wakes by itself.
    pub wake: Vec<i64>,
    /// For each cat, the sample that its heading's jitter is computed from.
    pub jitter: Vec<i64>,
}

impl StirDraws {
    /// The draws fit a flock of `n` cats: every sample is a fraction in
    /// `[0, 1)`, there is one for each pair and two for each cat, and the
    /// pick is one of the cats.
    pub open spec fn wf(self, n: int) -> bool {
        &&& play_wf(self.play@, n)
        &&& self.wake@.len() == n
        &&& fractions(self.wake@)
        &&& self.jitter@.len() == n
        &&& fractions(self.jitter@)
        &&& n > 0 ==> self.pick < n
    }

    /// Tells whether the draws fit a flock of `n` cats.
    pub fn is_wf(&self, n: usize) -> (ok: bool)
        ensures
            ok == self.wf(n as int),
    {
        if self.play.len() != n || self.wake.len() != n || self.jitter.len() != n {
            return false;
        }
        if n > 0 && self.pick >= n {
            return false;
        }
        if !all_fractions(&self.wake) || !all_fractions(&self.jitter) {
            return false;
        }
        let mut i: usize = 0;
        while i < n
            invariant
                i <= n,
                self.play@.len() == n,
                forall|r: int|
                    0 <= r < i ==> (#[trigger] self.play@[r])@.len() == n - 1 - r && fractions(
                        self.play@[r]@,
                    ),
            decreases n - i,
        {
            if self.play[i].len() != n - 1 - i || !all_fractions(&self.play[i]) {
                return false;
            }
            i = i + 1;
        }
        true
    }

    /// The draws under which chance stays out of the step as far as it
    /// can: every play and wake sample is the largest fraction, every
    /// jitter sample is one half, and the pick is the first cat.
    pub fn quiet(n: usize) -> (d: StirDraws)
        ensures
            d.wf(n as int),
            d.pick == 0,
            forall|i: int, c: int|
                0 <= i < n && 0 <= c < n - 1 - i ==> (#[trigger] d.play@[i]@[c]) == SCALE - 1,
            forall|k: int| 0 <= k < n ==> (#[trigger] d.wake@[k]) == SCALE - 1,
            forall|k: int| 0 <= k < n ==> (#[trigger] d.jitter@[k]) == SCALE / 2,
    {
        let mut play: Vec<Vec<i64>> = Vec::new();
        let mut i: usize = 0;
        while i < n
            invariant
                i <= n,
                play@.len() == i,
                forall|r: int|
                    0 <= r < i ==> (#[trigger] play@[r])@.len() == n - 1 - r && fractions(
                        play@[r]@,
                    ),
                forall|r: int, c: int|
                    0 <= r < i && 0 <= c < n - 1 - r ==> (#[trigger] play@[r]@[c]) == SCALE - 1,
            decreases n - i,
        {
            let row: Vec<i64> = repeated(SCALE - 1, n - 1 - i);
            play.push(row);
            i = i + 1;
        }
        StirDraws { play, pick: 0, wake: repeated(SCALE - 1, n), jitter: repeated(SCALE / 2, n) }
    }

    /// Draws the samples of one step for a flock of `n` cats.
    pub fn draw(rng: &mut StdRng, n: usize) -> (d: StirDraws)
        ensures
            d.wf(n as int),
    {
        let mut play: Vec<Vec<i64>> = Vec::new();
        let mut i: usize = 0;
        while i < n
            invariant
                i <= n,
                play@.len() == i,
                forall|r: int|
                    0 <= r < i ==> (#[trigger] play@[r])@.len() == n - 1 - r && fractions(
                        play@[r]@,
                    ),
            decreases n - i,
        {
            let row: Vec<i64> = draw_fractions(rng, n - 1 - i);
            play.push(row);
            i = i + 1;
        }
        let pick: usize = if n > 0 {
            draw_index(rng, n)
        } else {
            0
        };
        let wake: Vec<i64> = draw_fractions(rng, n);
        let jitter: Vec<i64> = draw_fractions(rng, n);
        StirDraws { play, pick, wake, jitter }
    }
}

/// Tells whether every sample is a fraction in `[0, 1)`.
pub fn all_fractions(samples: &Vec<i64>) -> (ok: bool)
    ensures
        ok == fractions(samples@),
{
    let mut k: usize = 0;
    while k < samples.len()
        invariant
            k <= samples.len(),
            forall|c: int| 0 <= c < k ==> is_fraction(#[trigger] samples@[c] as int),
        decreases samples.len() - k,
    {
        if samples[k] < 0 || samples[k] >= SCALE {
            return false;
        }
        k = k + 1;
    }
    true
}

/// A vector of `n` copies of `value`.
pub fn repeated(value: i64, n: usize) -> (v: Vec<i64>)
    ensures
        v@.len() == n,
        forall|k: int| 0 <= k < n ==> (#[trigger] v@[k]) == value,
{
    let mut v: Vec<i64> = Vec::new();
    let mut k: usize = 0;
    while k < n
        invariant
            k <= n,
            v@.len() == k,
            forall|c: int| 0 <= c < k ==> (#[trigger] v@[c]) == value,
        decreases n - k,
    {
        v.push(value);
        k = k + 1;
    }
    v
}

/// Whether cat `k` is the one woken because the flock has slept for more
/// than `min_cat_wakeup` ticks.
pub open spec fn forced_at(cfg: Config, ticks: int, pick: int, k: int) -> bool {
    ticks > cfg.min_cat_wakeup && k == pick
}

/// Whether cat `k` wakes in this step.
pub open spec fn wakes_at(cfg: Config, ticks: int, draws: StirDraws, k: int) -> bool {
    wakes(cfg, forced_at(cfg, ticks, draws.pick as int, k), draws.wake@[k] as int)
}

/// Whether one of the first `n` cats wakes in this step.
pub open spec fn any_woken(cfg: Config, ticks: int, draws: StirDraws, n: int) -> bool {
    exists|k: int| 0 <= k < n && #[trigger] wakes_at(cfg, ticks, draws, k)
}

/// For each of the first `n` cats, whether it wakes in this step.
pub open spec fn woken_flags(cfg: Config, ticks: int, draws: StirDraws, n: int) -> Seq<bool> {
    Seq::new(n as nat, |k: int| wakes_at(cfg, ticks, draws, k))
}

/// Cat `k` of the flock `played`, after it has reacted.
pub open spec fn reacted_at(
    cfg: Config,
    before: World,
    played: Seq<Cat>,
    player: Point,
    bearings: Seq<Bearings>,
    draws: StirDraws,
    k: int,
) -> Cat {
    Cat {
        behavior: reacted(
            cfg,
            played[k],
            player,
            bearings[k],
            before.screen_half_extent as int,
            forced_at(cfg, before.ticks_since_forced_wake as int, draws.pick as int, k),
            draws.wake@[k] as int,
            draws.jitter@[k] as int,
        ),
        ..played[k]
    }
}

/// What one behaviour step does, given its draws. The spread of the flock
/// is measured where the cats stand. Every pair of cats meets; then each cat
/// reacts. The count of ticks since a wake-up restarts at one if a cat woke
/// and grows by one otherwise. Nothing else in the world changes.
pub open spec fn stirred(
    cfg: Config,
    before: World,
    cats: Seq<Cat>,
    player: Point,
    bearings: Seq<Bearings>,
    draws: StirDraws,
    after: World,
    result: Seq<Cat>,
) -> bool {
    let played = after_play(cfg, cats, draws.play@);
    &&& result.len() == cats.len()
    &&& forall|k: int|
        0 <= k < cats.len() ==> #[trigger] result[k] == reacted_at(
            cfg,
            before,
            played,
            player,
            bearings,
            draws,
            k,
        )
    &&& is_spread(
        cats,
        before.max_cat_pair_midpoint,
        Spread { distance: after.max_cat_pair_distance, midpoint: after.max_cat_pair_midpoint },
    )
    &&& after.ticks_since_forced_wake == (if any_woken(
        cfg,
        before.ticks_since_forced_wake as int,
        draws,
        cats.len() as int,
    ) {
        1
    } else {
        before.ticks_since_forced_wake + 1
    })
    &&& after.screen_half_extent == before.screen_half_extent
    &&& after.last_cursor_pos == before.last_cursor_pos
    &&& after.score == before.score
    &&& after.possible_score == before.possible_score
}

/// One behaviour step with the given draws. Tells, cat by cat, which cats
/// woke. Only a step on an empty flock can run out of room to count ticks.
pub fn stir_cats_with(
    cfg: &Config,
    world: &mut World,
    player: &Point,
    cats: &mut Vec<Cat>,
    bearings: &Vec<Bearings>,
    draws: &StirDraws,
) -> (woken: Vec<bool>)
    requires
        cfg.wf(),
        old(world).wf(),
        old(cats)@.len() == 0 ==> old(world).ticks_since_forced_wake < u64::MAX,
        player.wf(),
        flock_wf(old(cats)@, *cfg),
        bearings@.len() == old(cats)@.len(),
        bearings_wf(bearings@),
        draws.wf(old(cats)@.len() as int),
    ensures
        stirred(*cfg, *old(world), old(cats)@, *player, bearings@, *draws, *final(world), final(cats)@),
        woken@ == woken_flags(
            *cfg,
            old(world).ticks_since_forced_wake as int,
            *draws,
            old(cats)@.len() as int,
        ),
        flock_wf(final(cats)@, *cfg),
        final(world).wf(),
{
    let n: usize = cats.len();
    let ghost before = *world;
    let ticks: u64 = world.ticks_since_forced_wake;
    let screen_size: i64 = world.screen_half_extent;
    let spread: Spread = measure_spread(cats, world.max_cat_pair_midpoint);
    world.max_cat_pair_distance = spread.distance;
    world.max_cat_pair_midpoint = spread.midpoint;
    play_round(cfg, cats, &draws.play);
    let ghost played = cats@;
    let too_sleepy: bool = ticks > cfg.min_cat_wakeup;
    let mut woken: Vec<bool> = Vec::new();
    let mut woke_any: bool = false;
    let mut k: usize = 0;
    while k < n
        invariant
            k <= n,
            n == played.len(),
            cats@.len() == n,
            bearings@.len() == n,
            cfg.wf(),
            player.wf(),
            bearings_wf(bearings@),
            draws.wf(n as int),
            -WORLD_LIMIT <= screen_size <= WORLD_LIMIT,
            screen_size == before.screen_half_extent,
            ticks == before.ticks_since_forced_wake,
            too_sleepy == (ticks > cfg.min_cat_wakeup),
            flock_wf(played, *cfg),
            flock_wf(cats@, *cfg),
            forall|c: int|
                0 <= c < k ==> #[trigger] cats@[c] == reacted_at(
                    *cfg,
                    before,
                    played,
                    *player,
                    bearings@,
                    *draws,
                    c,
                ),
            forall|c: int| k <= c < n ==> #[trigger] cats@[c] == played[c],
            woke_any == any_woken(*cfg, ticks as int, *draws, k as int),
            woken@.len() == k,
            forall|c: int|
                0 <= c < k ==> #[trigger] woken@[c] == wakes_at(*cfg, ticks as int, *draws, c),
        decreases n - k,
    {
        let forced: bool = too_sleepy && k == draws.pick;
        let mut cat: Cat = cats[k];
        let woke: bool = react(
            cfg,
            &mut cat,
            player,
            &bearings[k],
            screen_size,
            forced,
            draws.wake[k],
            draws.jitter[k],
        );
        assert(woke == wakes_at(*cfg, ticks as int, *draws, k as int));
        cats[k] = cat;
        woken.push(woke);
        if woke {
            woke_any = true;
        }
        k = k + 1;
    }
    if woke_any {
        world.ticks_since_forced_wake = 0;
    }
    proof {
        if n > 0 && too_sleepy {
            assert(wakes_at(*cfg, ticks as int, *draws, draws.pick as int));
        }
        assert(woken@ =~= woken_flags(*cfg, ticks as int, *draws, n as int));
    }
    world.ticks_since_forced_wake = world.ticks_since_forced_wake + 1;
    woken
}

/// A behaviour step moves no cat, and leaves every cat's energy in
/// `[0, chase_energy]`, its heading in `(-PI, PI]` and its speed in
/// `[0, max_speed]`.
pub proof fn lemma_stir_keeps_flock(
    cfg: Config,
    before: World,
    cats: Seq<Cat>,
    player: Point,
    bearings: Seq<Bearings>,
    draws: StirDraws,
    after: World,
    result: Seq<Cat>,
)
    requires
        cfg.wf(),
        flock_wf(cats, cfg),
        stirred(cfg, before, cats, player, bearings, draws, after, result),
    ensures
        same_bodies(result, cats),
        flock_wf(result, cfg),
{
    let played = after_play(cfg, cats, draws.play@);
    lemma_after_play_keeps(cfg, cats, draws.play@);
    assert forall|k: int| 0 <= k < result.len() implies (#[trigger] result[k]).wf(cfg)
        && result[k].position == cats[k].position && result[k].radius == cats[k].radius by {
        lemma_reacted_in_range(
            cfg,
            played[k],
            player,
            bearings[k],
            before.screen_half_extent as int,
            forced_at(cfg, before.ticks_since_forced_wake as int, draws.pick as int, k),
            draws.wake@[k] as int,
            draws.jitter@[k] as int,
        );
    }
}

/// A cat that starts the step closer to the player than the chase distance
/// ends it with chase energy and chase speed.
pub proof fn lemma_stir_chase(
    cfg: Config,
    before: World,
    cats: Seq<Cat>,
    player: Point,
    bearings: Seq<Bearings>,
    draws: StirDraws,
    after: World,
    result: Seq<Cat>,
    k: int,
)
    requires
        stirred(cfg, before, cats, player, bearings, draws, after, result),
        0 <= k < cats.len(),
        distance_between(cats[k].position, player) < cfg.chase_distance,
    ensures
        result[k].behavior.energy == cfg.chase_energy,
        result[k].behavior.speed == cfg.chase_speed,
{
    lemma_after_play_keeps(cfg, cats, draws.play@);
}

/// A cat that starts the step closer to the player than the chase distance
/// ends it heading away from the player: its heading is the bearing away
/// from the player, plus its jitter, plus its turn at the edge if it is in
/// the outer band, brought back into `(-PI, PI]`.
pub proof fn lemma_stir_chase_heading(
    cfg: Config,
    before: World,
    cats: Seq<Cat>,
    player: Point,
    bearings: Seq<Bearings>,
    draws: StirDraws,
    after: World,
    result: Seq<Cat>,
    k: int,
)
    requires
        cfg.wf(),
        stirred(cfg, before, cats, player, bearings, draws, after, result),
        draws.wf(cats.len() as int),
        0 <= k < cats.len(),
        bearings[k].wf(),
        distance_between(cats[k].position, player) < cfg.chase_distance,
    ensures
        result[k].behavior.direction == normalized(
            fleeing_heading(
                cfg,
                cats[k],
                bearings[k],
                before.screen_half_extent as int,
                draws.jitter@[k] as int,
            ),
        ),
{
    let played = after_play(cfg, cats, draws.play@);
    lemma_after_play_keeps(cfg, cats, draws.play@);
    lemma_chase_overrides(
        cfg,
        played[k],
        player,
        bearings[k],
        before.screen_half_extent as int,
        forced_at(cfg, before.ticks_since_forced_wake as int, draws.pick as int, k),
        draws.wake@[k] as int,
        draws.jitter@[k] as int,
    );
}

/// A cat that starts the step at the safe radius or beyond it ends it with
/// chase energy and chase speed.
pub proof fn lemma_stir_outside(
    cfg: Config,
    before: World,
    cats: Seq<Cat>,
    player: Point,
    bearings: Seq<Bearings>,
    draws: StirDraws,
    after: World,
    result: Seq<Cat>,
    k: int,
)
    requires
        0 <= cfg.edge_repel,
        stirred(cfg, before, cats, player, bearings, draws, after, result),
        0 <= k < cats.len(),
        distance_between(cats[k].position, origin()) >= before.screen_half_extent,
    ensures
        result[k].behavior.energy == cfg.chase_energy,
        result[k].behavior.speed == cfg.chase_speed,
{
    let played = after_play(cfg, cats, draws.play@);
    lemma_after_play_keeps(cfg, cats, draws.play@);
    lemma_outside_is_startled(
        cfg,
        played[k],
        player,
        bearings[k],
        before.screen_half_extent as int,
        forced_at(cfg, before.ticks_since_forced_wake as int, draws.pick as int, k),
        draws.wake@[k] as int,
        draws.jitter@[k] as int,
    );
}

/// When the flock has gone more than `min_cat_wakeup` ticks without a
/// wake-up, the step wakes the one cat that the draws pick: that cat ends
/// the step with chase energy, and the count of ticks restarts, so that
/// it reads one at the end of the step.
pub proof fn lemma_stir_wakes(
    cfg: Config,
    before: World,
    cats: Seq<Cat>,
    player: Point,
    bearings: Seq<Bearings>,
    draws: StirDraws,
    after: World,
    result: Seq<Cat>,
)
    requires
        stirred(cfg, before, cats, player, bearings, draws, after, result),
        draws.wf(cats.len() as int),
        cats.len() > 0,
        before.ticks_since_forced_wake > cfg.min_cat_wakeup,
    ensures
        after.ticks_since_forced_wake == 1,
        result[draws.pick as int].behavior.energy == cfg.chase_energy,
        forall|k: int|
            0 <= k < cats.len() ==> (#[trigger] forced_at(
                cfg,
                before.ticks_since_forced_wake as int,
                draws.pick as int,
                k,
            ) <==> k == draws.pick),
{
    let played = after_play(cfg, cats, draws.play@);
    let pick = draws.pick as int;
    let ticks = before.ticks_since_forced_wake as int;
    assert(wakes_at(cfg, ticks, draws, pick));
    lemma_woken_has_energy(
        cfg,
        played[pick],
        player,
        bearings[pick],
        before.screen_half_extent as int,
        forced_at(cfg, ticks, pick, pick),
        draws.wake@[pick] as int,
        draws.jitter@[pick] as int,
    );
}

/// Every cat that wakes in the step, by chance or because it was picked,
/// ends the step with chase energy.
pub proof fn lemma_stir_woken(
    cfg: Config,
    before: World,
    cats: Seq<Cat>,
    player: Point,
    bearings: Seq<Bearings>,
    draws: StirDraws,
    after: World,
    result: Seq<Cat>,
    k: int,
)
    requires
        stirred(cfg, before, cats, player, bearings, draws, after, result),
        0 <= k < cats.len(),
        wakes_at(cfg, before.ticks_since_forced_wake as int, draws, k),
    ensures
        result[k].behavior.energy == cfg.chase_energy,
        after.ticks_since_forced_wake == 1,
{
    let played = after_play(cfg, cats, draws.play@);
    lemma_woken_has_energy(
        cfg,
        played[k],
        player,
        bearings[k],
        before.screen_half_extent as int,
        forced_at(cfg, before.ticks_since_forced_wake as int, draws.pick as int, k),
        draws.wake@[k] as int,
        draws.jitter@[k] as int,
    );
}

/// The count of ticks since a wake-up either restarts, reading one at the
/// end of the step, or grows by one; it restarts exactly if a cat woke.
pub proof fn lemma_stir_counts(
    cfg: Config,
    before: World,
    cats: Seq<Cat>,
    player: Point,
    bearings: Seq<Bearings>,
    draws: StirDraws,
    after: World,
    result: Seq<Cat>,
)
    requires
        stirred(cfg, before, cats, player, bearings, draws, after, result),
    ensures
        after.ticks_since_forced_wake == 1 || after.ticks_since_forced_wake
            == before.ticks_since_forced_wake + 1,
        cats.len() == 0 ==> after.ticks_since_forced_wake == before.ticks_since_forced_wake + 1,
{
}

/// One behaviour step, with draws taken from `rng`. Tells, cat by cat,
/// which cats woke. Whatever is drawn, the outcome is that of
/// `stir_cats_with` under some well-formed draws.
pub fn stir_cats(
    cfg: &Config,
    world: &mut World,
    player: &Point,
    cats: &mut Vec<Cat>,
    bearings: &Vec<Bearings>,
    rng: &mut StdRng,
) -> (woken: Vec<bool>)
    requires
        cfg.wf(),
        old(world).wf(),
        old(cats)@.len() == 0 ==> old(world).ticks_since_forced_wake < u64::MAX,
        player.wf(),
        flock_wf(old(cats)@, *cfg),
        bearings@.len() == old(cats)@.len(),
        bearings_wf(bearings@),
    ensures
        exists|draws: StirDraws|
            draws.wf(old(cats)@.len() as int) && #[trigger] stirred(
                *cfg,
                *old(world),
                old(cats)@,
                *player,
                bearings@,
                draws,
                *final(world),
                final(cats)@,
            ) && woken@ == woken_flags(
                *cfg,
                old(world).ticks_since_forced_wake as int,
                draws,
                old(cats)@.len() as int,
            ),
        same_bodies(final(cats)@, old(cats)@),
        flock_wf(final(cats)@, *cfg),
        final(world).wf(),
        forall|k: int|
            0 <= k < old(cats)@.len() && (distance_between(
                (#[trigger] old(cats)@[k]).position,
                *player,
            ) < cfg.chase_distance || distance_between(old(cats)@[k].position, origin())
                >= old(world).screen_half_extent) ==> final(cats)@[k].behavior.energy
                == cfg.chase_energy && final(cats)@[k].behavior.speed == cfg.chase_speed,
        woken@.len() == old(cats)@.len(),
        forall|k: int|
            0 <= k < old(cats)@.len() && #[trigger] woken@[k] ==> final(cats)@[k].behavior.energy
                == cfg.chase_energy,
        old(cats)@.len() > 0 && old(world).ticks_since_forced_wake > cfg.min_cat_wakeup
            ==> final(world).ticks_since_forced_wake == 1 && exists|k: int|
            0 <= k < old(cats)@.len() && #[trigger] woken@[k],
        final(world).ticks_since_forced_wake == (if exists|k: int|
            0 <= k < old(cats)@.len() && #[trigger] woken@[k] {
            1
        } else {
            old(world).ticks_since_forced_wake + 1
        }),
{
    let ghost before = *world;
    let ghost start = cats@;
    let draws: StirDraws = StirDraws::draw(rng, cats.len());
    let woken: Vec<bool> = stir_cats_with(cfg, world, player, cats, bearings, &draws);
    proof {
        let ticks = before.ticks_since_forced_wake as int;
        lemma_stir_keeps_flock(*cfg, before, start, *player, bearings@, draws, *world, cats@);
        assert forall|k: int|
            0 <= k < start.len() && (distance_between((#[trigger] start[k]).position, *player)
                < cfg.chase_distance || distance_between(start[k].position, origin())
                >= before.screen_half_extent) implies cats@[k].behavior.energy
            == cfg.chase_energy && cats@[k].behavior.speed == cfg.chase_speed by {
            if distance_between(start[k].position, *player) < cfg.chase_distance {
                lemma_stir_chase(*cfg, before, start, *player, bearings@, draws, *world, cats@, k);
            } else {
                lemma_stir_outside(
                    *cfg,
                    before,
                    start,
                    *player,
                    bearings@,
                    draws,
                    *world,
                    cats@,
                    k,
                );
            }
        }
        assert forall|k: int| 0 <= k < start.len() && #[trigger] woken@[k] implies cats@[k].behavior.energy
            == cfg.chase_energy by {
            lemma_stir_woken(*cfg, before, start, *player, bearings@, draws, *world, cats@, k);
        }
        if start.len() > 0 && before.ticks_since_forced_wake > cfg.min_cat_wakeup {
            lemma_stir_wakes(*cfg, before, start, *player, bearings@, draws, *world, cats@);
            assert(woken@[draws.pick as int]);
        }
        if any_woken(*cfg, ticks, draws, start.len() as int) {
            let k = choose|k: int| 0 <= k < start.len() && #[trigger] wakes_at(*cfg, ticks, draws, k);
            assert(woken@[k]);
        } else {
            assert forall|k: int| 0 <= k < start.len() implies !#[trigger] woken@[k] by {
                assert(woken@[k] == wakes_at(*cfg, ticks, draws, k));
            }
        }
    }
    woken
}

} // verus!
