//! The integrator: energy decays, speed follows energy, and every cat moves
//! along its heading.

use rand::rngs::StdRng;
use vstd::prelude::*;
use crate::config::Config;
use crate::geometry::{shifted, Point};
use crate::model::{flock_wf, headings_wf, squared_length, Behavior, Cat, Heading};
use crate::random::{draw_fractions, fractions};
use crate::units::{quotient, SCALE};

verus! {

/// The energy a cat spends in one tick.
pub const ENERGY_DECAY: i64 = 1_000_000;

/// What a cat's speed gains in a tick while it has energy, and loses once it
/// has none.
pub const ACCELERATION: i64 = 100_000;

/// A cat without energy that is no faster than this stops at once.
pub const STALL_SPEED: i64 = 200_000;

/// A cat with energy hesitates, and gains no speed, when its sample does
/// not exceed this fraction.
pub const HESITATION: i64 = 1_000;

/// Energy and speed after one tick, before the speed limit applies. With
/// more than one tick's worth of energy the cat spends one and, unless it
/// hesitates, gains speed; otherwise its energy is zero and it slows down,
/// stopping at once when at or below the stall speed.
pub open spec fn paced(b: Behavior, sample: int) -> Behavior {
    if b.energy > ENERGY_DECAY {
        let energy = b.energy - ENERGY_DECAY;
        Behavior {
            energy: energy as i64,
            speed: if energy > 0 && sample > HESITATION {
                (b.speed + ACCELERATION) as i64
            } else {
                b.speed
            },
            ..b
        }
    } else {
        Behavior {
            energy: 0,
            speed: if b.speed > STALL_SPEED {
                (b.speed - ACCELERATION) as i64
            } else {
                0
            },
            ..b
        }
    }
}

/// How far a cat moves along one axis in a tick: the heading's component
/// times the speed, rounded toward zero.
pub open spec fn stride(component: int, speed: int) -> int {
    quotient(component * speed, SCALE as int)
}

/// A cat after one tick of the integrator: it is paced, moves by its stride
/// at the paced speed, and only then is its speed cut to the speed limit.
pub open spec fn integrated(cfg: Config, cat: Cat, heading: Heading, sample: int) -> Cat {
    let b = paced(cat.behavior, sample);
    Cat {
        position: Point {
            x: shifted(cat.position.x as int, stride(heading.cos as int, b.speed as int)) as i64,
            y: shifted(cat.position.y as int, stride(heading.sin as int, b.speed as int)) as i64,
        },
        behavior: Behavior {
            speed: if b.speed <= cfg.max_speed {
                b.speed
            } else {
                cfg.max_speed
            },
            ..b
        },
        ..cat
    }
}

/// A stride is no longer than the speed.
pub proof fn lemma_stride_bounds(component: int, speed: int)
    requires
        -SCALE <= component <= SCALE,
        0 <= speed,
    ensures
        -speed <= stride(component, speed) <= speed,
        -SCALE * speed <= component * speed <= SCALE * speed,
{
    let prod = component * speed;
    assert(-1_000_000 * speed <= prod <= 1_000_000 * speed) by (nonlinear_arith)
        requires
            prod == component * speed,
            -1_000_000 <= component <= 1_000_000,
            0 <= speed,
    ;
}

/// A stride is no longer than the heading's component times the speed:
/// the stride squared, times `SCALE` squared, is at most the component
/// squared times the speed squared.
pub proof fn lemma_stride_square(component: int, speed: int)
    requires
        0 <= speed,
    ensures
        stride(component, speed) * stride(component, speed) * (SCALE * SCALE) <= (component
            * component) * (speed * speed),
{
    let prod = component * speed;
    let size = if prod >= 0 {
        prod
    } else {
        -prod
    };
    let step = size / (SCALE as int);
    let d = stride(component, speed);
    assert(d == step || d == -step);
    assert(d * d == step * step) by (nonlinear_arith)
        requires
            d == step || d == -step,
    ;
    assert(0 <= step * 1_000_000 <= size);
    assert((step * 1_000_000) * (step * 1_000_000) <= size * size) by (nonlinear_arith)
        requires
            0 <= step * 1_000_000 <= size,
    ;
    assert(size * size == (component * component) * (speed * speed)) by (nonlinear_arith)
        requires
            size == component * speed || size == -(component * speed),
    ;
    assert(d * d * (1_000_000 * 1_000_000) == (step * 1_000_000) * (step * 1_000_000))
        by (nonlinear_arith)
        requires
            d * d == step * step,
    ;
}

/// A cat moves no farther in a tick than its speed, but for rounding: the
/// squared length of its move is at most the squared speed times
/// `1 + 4 / SCALE`.
pub proof fn lemma_move_within_speed(heading: Heading, speed: int)
    requires
        heading.wf(),
        0 <= speed,
    ensures
        squared_length(stride(heading.cos as int, speed), stride(heading.sin as int, speed))
            * SCALE <= (speed * speed) * (SCALE + 4),
{
    let c = heading.cos as int;
    let s = heading.sin as int;
    let dx = stride(c, speed);
    let dy = stride(s, speed);
    let v2 = speed * speed;
    lemma_stride_square(c, speed);
    lemma_stride_square(s, speed);
    let len = dx * dx + dy * dy;
    let unit = c * c + s * s;
    assert(0 <= v2) by (nonlinear_arith)
        requires
            v2 == speed * speed,
    ;
    assert(len * 1_000_000_000_000 <= unit * v2) by (nonlinear_arith)
        requires
            len == dx * dx + dy * dy,
            unit == c * c + s * s,
            dx * dx * (1_000_000 * 1_000_000) <= (c * c) * v2,
            dy * dy * (1_000_000 * 1_000_000) <= (s * s) * v2,
    ;
    assert(unit * v2 <= 1_000_004_000_000 * v2) by (nonlinear_arith)
        requires
            unit <= 1_000_004_000_000,
            0 <= v2,
    ;
    assert(len * 1_000_000 <= v2 * 1_000_004) by (nonlinear_arith)
        requires
            len * 1_000_000_000_000 <= 1_000_004_000_000 * v2,
    ;
}

/// The integrator leaves energy in `[0, chase_energy]`, the speed in
/// `[0, max_speed]` and the cat on the plane; it does not touch the heading.
pub proof fn lemma_integrated_in_range(cfg: Config, cat: Cat, heading: Heading, sample: int)
    requires
        cfg.wf(),
        cat.wf(cfg),
    ensures
        integrated(cfg, cat, heading, sample).wf(cfg),
        integrated(cfg, cat, heading, sample).behavior.direction == cat.behavior.direction,
        integrated(cfg, cat, heading, sample).radius == cat.radius,
{
}

/// A cat with no more than one tick's worth of energy and no more than the
/// stall speed stands still after the tick, with no energy, where it was.
pub proof fn lemma_stalled_cat_stops(cfg: Config, cat: Cat, heading: Heading, sample: int)
    requires
        cfg.wf(),
        cat.wf(cfg),
        cat.behavior.energy <= ENERGY_DECAY,
        cat.behavior.speed <= STALL_SPEED,
    ensures
        integrated(cfg, cat, heading, sample).behavior.speed == 0,
        integrated(cfg, cat, heading, sample).behavior.energy == 0,
        integrated(cfg, cat, heading, sample).position == cat.position,
{
}

/// One cat's tick of the integrator.
pub fn integrate(cfg: &Config, cat: &mut Cat, heading: &Heading, sample: i64)
    requires
        cfg.wf(),
        old(cat).wf(*cfg),
        heading.wf(),
    ensures
        *final(cat) == integrated(*cfg, *old(cat), *heading, sample as int),
        final(cat).wf(*cfg),
{
    let mut b: Behavior = cat.behavior;
    if b.energy > ENERGY_DECAY {
        b.energy = b.energy - ENERGY_DECAY;
        if b.energy > 0 && sample > HESITATION {
            b.speed = b.speed + ACCELERATION;
        }
    } else {
        b.energy = 0;
        if b.speed > STALL_SPEED {
            b.speed = b.speed - ACCELERATION;
        } else {
            b.speed = 0;
        }
    }
    proof {
        lemma_stride_bounds(heading.cos as int, b.speed as int);
        lemma_stride_bounds(heading.sin as int, b.speed as int);
    }
    let dx: i64 = heading.cos * b.speed / SCALE;
    let dy: i64 = heading.sin * b.speed / SCALE;
    cat.position = cat.position.offset(dx as i128, dy as i128);
    if b.speed > cfg.max_speed {
        b.speed = cfg.max_speed;
    }
    cat.behavior = b;
}

/// What one tick of the integrator does to the flock, given each cat's
/// heading vector and hesitation sample.
pub open spec fn flock_integrated(
    cfg: Config,
    cats: Seq<Cat>,
    headings: Seq<Heading>,
    samples: Seq<i64>,
    result: Seq<Cat>,
) -> bool {
    &&& result.len() == cats.len()
    &&& forall|k: int|
        0 <= k < cats.len() ==> #[trigger] result[k] == integrated(
            cfg,
            cats[k],
            headings[k],
            samples[k] as int,
        )
}

/// A tick of the integrator leaves every cat's energy in
/// `[0, chase_energy]` and its speed in `[0, max_speed]`, keeps every cat
/// on the plane, and changes no heading.
pub proof fn lemma_flock_integrated_keeps(
    cfg: Config,
    cats: Seq<Cat>,
    headings: Seq<Heading>,
    samples: Seq<i64>,
    result: Seq<Cat>,
)
    requires
        cfg.wf(),
        flock_wf(cats, cfg),
        flock_integrated(cfg, cats, headings, samples, result),
    ensures
        flock_wf(result, cfg),
        forall|k: int|
            0 <= k < cats.len() ==> (#[trigger] result[k]).behavior.direction
                == cats[k].behavior.direction,
{
    assert forall|k: int| 0 <= k < result.len() implies (#[trigger] result[k]).wf(cfg)
        && result[k].behavior.direction == cats[k].behavior.direction by {
        lemma_integrated_in_range(cfg, cats[k], headings[k], samples[k] as int);
    }
}

/// One tick of the integrator with the given hesitation samples. `headings`
/// holds, for each cat, the unit vector of the heading it has now.
pub fn update_positions_with(
    cfg: &Config,
    cats: &mut Vec<Cat>,
    headings: &Vec<Heading>,
    samples: &Vec<i64>,
)
    requires
        cfg.wf(),
        flock_wf(old(cats)@, *cfg),
        headings@.len() == old(cats)@.len(),
        headings_wf(headings@),
        samples@.len() == old(cats)@.len(),
    ensures
        flock_integrated(*cfg, old(cats)@, headings@, samples@, final(cats)@),
        flock_wf(final(cats)@, *cfg),
{
    let ghost start = cats@;
    let n: usize = cats.len();
    let mut k: usize = 0;
    while k < n
        invariant
            k <= n,
            n == start.len(),
            cats@.len() == n,
            headings@.len() == n,
            samples@.len() == n,
            cfg.wf(),
            headings_wf(headings@),
            flock_wf(cats@, *cfg),
            forall|c: int|
                0 <= c < k ==> #[trigger] cats@[c] == integrated(
                    *cfg,
                    start[c],
                    headings@[c],
                    samples@[c] as int,
                ),
            forall|c: int| k <= c < n ==> #[trigger] cats@[c] == start[c],
        decreases n - k,
    {
        let mut cat: Cat = cats[k];
        integrate(cfg, &mut cat, &headings[k], samples[k]);
        cats[k] = cat;
        k = k + 1;
    }
}

/// One tick of the integrator, with hesitation samples taken from `rng`.
/// Whatever is drawn, the outcome is that of `update_positions_with` under
/// some samples in `[0, 1)`.
pub fn update_positions(
    cfg: &Config,
    cats: &mut Vec<Cat>,
    headings: &Vec<Heading>,
    rng: &mut StdRng,
)
    requires
        cfg.wf(),
        flock_wf(old(cats)@, *cfg),
        headings@.len() == old(cats)@.len(),
        headings_wf(headings@),
    ensures
        exists|samples: Seq<i64>|
            samples.len() == old(cats)@.len() && fractions(samples) && #[trigger] flock_integrated(
                *cfg,
                old(cats)@,
                headings@,
                samples,
                final(cats)@,
            ),
        flock_wf(final(cats)@, *cfg),
        final(cats)@.len() == old(cats)@.len(),
        forall|k: int|
            0 <= k < old(cats)@.len() ==> (#[trigger] final(cats)@[k]).behavior.direction
                == old(cats)@[k].behavior.direction && final(cats)@[k].radius
                == old(cats)@[k].radius,
{
    let ghost start = cats@;
    let samples: Vec<i64> = draw_fractions(rng, cats.len());
    update_positions_with(cfg, cats, headings, &samples);
    proof {
        assert forall|k: int| 0 <= k < start.len() implies (#[trigger] cats@[k]).behavior.direction
            == start[k].behavior.direction && cats@[k].radius == start[k].radius by {
            lemma_integrated_in_range(*cfg, start[k], headings@[k], samples@[k] as int);
        }
    }
}

} // verus!
