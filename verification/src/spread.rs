//! The spread of the flock: the largest distance between two cats, and the
//! point halfway between the two that are farthest apart.

use vstd::prelude::*;
use crate::geometry::{distance_between, distance_squared, midpoint_of, Point, WORLD_LIMIT};
use crate::units::{is_floor_sqrt, lemma_floor_sqrt_unique};
use crate::model::Cat;

verus! {

/// The largest distance between two cats and the midpoint of that pair.
#[derive(Clone, Copy, Debug, PartialEq, Eq, Structural)]
pub struct Spread {
    pub distance: i64,
    pub midpoint: Point,
}

/// The distance between cats `a` and `b`.
pub open spec fn pair_distance(cats: Seq<Cat>, a: int, b: int) -> int {
    distance_between(cats[a].position, cats[b].position)
}

/// No two cats are farther apart than `d`.
pub open spec fn within(cats: Seq<Cat>, d: int) -> bool {
    forall|a: int, b: int| 0 <= a < b < cats.len() ==> #[trigger] pair_distance(cats, a, b) <= d
}

/// Whether the pair `(a, b)` comes before the pair `(i, j)` in the order
/// `(0, 1), (0, 2), .., (1, 2), ..`.
pub open spec fn comes_before(a: int, b: int, i: int, j: int) -> bool {
    a < i || (a == i && b < j)
}

/// Every pair that comes before `(i, j)` is closer together than `d`.
pub open spec fn closer_before(cats: Seq<Cat>, i: int, j: int, d: int) -> bool {
    forall|a: int, b: int|
        0 <= a < b < cats.len() && comes_before(a, b, i, j) ==> #[trigger] pair_distance(
            cats,
            a,
            b,
        ) < d
}

/// `(i, j)` is the first pair, in order, among those farthest apart.
pub open spec fn first_widest(cats: Seq<Cat>, i: int, j: int) -> bool {
    &&& 0 <= i < j < cats.len()
    &&& within(cats, pair_distance(cats, i, j))
    &&& closer_before(cats, i, j, pair_distance(cats, i, j))
}

/// Whether `s` is the spread of the flock. With two cats or more,
/// `s.distance` is the distance of the first pair among those farthest
/// apart, and `s.midpoint` lies halfway between the two; so no two cats
/// are farther apart than `s.distance`, and cats that all stand on one
/// spot have that spot for a midpoint. With fewer than two cats there is no
/// pair: the distance is zero and `s.midpoint` is `fallback`.
pub open spec fn is_spread(cats: Seq<Cat>, fallback: Point, s: Spread) -> bool {
    &&& 0 <= s.distance
    &&& within(cats, s.distance as int)
    &&& cats.len() < 2 ==> s.distance == 0 && s.midpoint == fallback
    &&& cats.len() >= 2 ==> exists|i: int, j: int|
        #![trigger pair_distance(cats, i, j)]
        first_widest(cats, i, j) && pair_distance(cats, i, j) == s.distance && s.midpoint
            == midpoint_of(cats[i].position, cats[j].position)
}

/// At most one pair is the first among those farthest apart.
pub proof fn lemma_first_widest_unique(cats: Seq<Cat>, i: int, j: int, p: int, q: int)
    requires
        first_widest(cats, i, j),
        first_widest(cats, p, q),
    ensures
        i == p && j == q,
{
}

/// A flock has one spread only.
pub proof fn lemma_spread_unique(cats: Seq<Cat>, fallback: Point, s: Spread, t: Spread)
    requires
        is_spread(cats, fallback, s),
        is_spread(cats, fallback, t),
    ensures
        s == t,
{
    if cats.len() >= 2 {
        let (i, j) = choose|i: int, j: int|
            #![trigger pair_distance(cats, i, j)]
            first_widest(cats, i, j) && pair_distance(cats, i, j) == s.distance && s.midpoint
                == midpoint_of(cats[i].position, cats[j].position);
        let (p, q) = choose|p: int, q: int|
            #![trigger pair_distance(cats, p, q)]
            first_widest(cats, p, q) && pair_distance(cats, p, q) == t.distance && t.midpoint
                == midpoint_of(cats[p].position, cats[q].position);
        lemma_first_widest_unique(cats, i, j, p, q);
    }
}

/// The spread of two cats or more does not depend on the fallback: it is
/// measured anew from where the cats stand.
pub proof fn lemma_spread_forgets(cats: Seq<Cat>, fallback: Point, other: Point, s: Spread)
    requires
        cats.len() >= 2,
        is_spread(cats, fallback, s),
    ensures
        is_spread(cats, other, s),
{
}

/// Cats that all stand on one spot have a spread of zero around that spot.
pub proof fn lemma_spread_of_a_heap(cats: Seq<Cat>, fallback: Point, s: Spread, spot: Point)
    requires
        cats.len() >= 2,
        spot.wf(),
        forall|k: int| 0 <= k < cats.len() ==> (#[trigger] cats[k]).position == spot,
        is_spread(cats, fallback, s),
    ensures
        s.distance == 0,
        s.midpoint == spot,
{
    let (i, j) = choose|i: int, j: int|
        #![trigger pair_distance(cats, i, j)]
        first_widest(cats, i, j) && pair_distance(cats, i, j) == s.distance && s.midpoint
            == midpoint_of(cats[i].position, cats[j].position);
    assert(cats[i].position == spot && cats[j].position == spot);
    assert(distance_squared(spot, spot) == 0) by (nonlinear_arith);
    assert(is_floor_sqrt(0, 0)) by (nonlinear_arith);
    lemma_floor_sqrt_unique(0, 0);
}

/// Every cat is on the plane.
pub open spec fn all_placed(cats: Seq<Cat>) -> bool {
    forall|k: int| 0 <= k < cats.len() ==> (#[trigger] cats[k]).position.wf()
}

/// Measures the spread of the flock from where the cats stand. With fewer
/// than two cats there is nothing to measure, and the midpoint reported is
/// `fallback`.
pub fn measure_spread(cats: &Vec<Cat>, fallback: Point) -> (s: Spread)
    requires
        all_placed(cats@),
        fallback.wf(),
    ensures
        is_spread(cats@, fallback, s),
        s.distance < 3 * WORLD_LIMIT,
        s.midpoint.wf(),
{
    let n: usize = cats.len();
    let mut best = Spread { distance: 0, midpoint: fallback };
    let mut found: bool = false;
    let ghost mut wi: int = 0;
    let ghost mut wj: int = 0;
    let mut i: usize = 0;
    while i < n
        invariant
            i <= n,
            n == cats.len(),
            all_placed(cats@),
            0 <= best.distance < 3 * WORLD_LIMIT,
            best.midpoint.wf(),
            found == (i > 0 && n >= 2),
            forall|a: int, b: int|
                0 <= a < b < n && a < i ==> #[trigger] pair_distance(cats@, a, b) <= best.distance,
            !found ==> best == (Spread { distance: 0, midpoint: fallback }),
            found ==> 0 <= wi < wj < n && wi < i && pair_distance(cats@, wi, wj) == best.distance
                && best.midpoint == midpoint_of(cats@[wi].position, cats@[wj].position)
                && closer_before(cats@, wi, wj, best.distance as int),
        decreases n - i,
    {
        let mut j: usize = i + 1;
        while j < n
            invariant
                i < j <= n,
                n == cats.len(),
                all_placed(cats@),
                0 <= best.distance < 3 * WORLD_LIMIT,
                best.midpoint.wf(),
                found == (i > 0 || j > i + 1),
                forall|a: int, b: int|
                    0 <= a < b < n && comes_before(a, b, i as int, j as int)
                        ==> #[trigger] pair_distance(cats@, a, b) <= best.distance,
                !found ==> best == (Spread { distance: 0, midpoint: fallback }),
                found ==> 0 <= wi < wj < n && comes_before(wi, wj, i as int, j as int)
                    && pair_distance(cats@, wi, wj) == best.distance && best.midpoint
                    == midpoint_of(cats@[wi].position, cats@[wj].position) && closer_before(
                    cats@,
                    wi,
                    wj,
                    best.distance as int,
                ),
            decreases n - j,
        {
            let first: Cat = cats[i];
            let second: Cat = cats[j];
            let d: i64 = first.position.distance(&second.position);
            if !found || d > best.distance {
                best = Spread { distance: d, midpoint: first.position.midpoint(&second.position) };
                found = true;
                proof {
                    wi = i as int;
                    wj = j as int;
                }
            }
            j = j + 1;
        }
        i = i + 1;
    }
    best
}

} // verus!
