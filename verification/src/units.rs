//! Fixed-point arithmetic: scale, truncating quotients, integer square roots and
//! heading angles kept in the half-open turn `(-PI, PI]`.

use vstd::prelude::*;

verus! {

/// Fixed-point steps in one whole unit: a value `v` stands for `v / SCALE`.
pub const SCALE: i64 = 1_000_000;

/// Half a turn, in fixed-point radians.
pub const PI: i64 = 3_141_593;

/// A full turn, exactly twice [`PI`].
pub const TAU: i64 = 6_283_186;

/// The quotient of `a` by a positive `b`, rounded toward zero.
pub open spec fn quotient(a: int, b: int) -> int
    recommends
        b > 0,
{
    if a >= 0 {
        a / b
    } else {
        -((-a) / b)
    }
}

/// The magnitude of `a`.
pub open spec fn magnitude(a: int) -> int {
    if a >= 0 {
        a
    } else {
        -a
    }
}

/// `a` held between `lo` and `hi`.
pub open spec fn clamped(a: int, lo: int, hi: int) -> int
    recommends
        lo <= hi,
{
    if a < lo {
        lo
    } else if a > hi {
        hi
    } else {
        a
    }
}

/// Whether `r` is the largest natural whose square does not exceed `n`.
pub open spec fn is_floor_sqrt(n: nat, r: nat) -> bool {
    r * r <= n < (r + 1) * (r + 1)
}

/// The largest `r` whose square does not exceed `n`.
pub open spec fn floor_sqrt(n: nat) -> nat {
    choose|r: nat| is_floor_sqrt(n, r)
}

/// Squaring is monotone on the naturals.
pub proof fn lemma_square_monotone(a: nat, b: nat)
    requires
        a <= b,
    ensures
        a * a <= b * b,
{
    assert(a * a <= b * b) by (nonlinear_arith)
        requires
            a <= b,
    ;
}

/// Every natural has a floor square root.
pub proof fn lemma_floor_sqrt_exists(n: nat) -> (r: nat)
    ensures
        is_floor_sqrt(n, r),
    decreases n,
{
    if n == 0 {
        assert(is_floor_sqrt(0, 0)) by (nonlinear_arith);
        0
    } else {
        let p = lemma_floor_sqrt_exists((n - 1) as nat);
        let q = p + 1;
        if q * q <= n {
            assert((q + 1) * (q + 1) > q * q) by (nonlinear_arith);
            q
        } else {
            p
        }
    }
}

/// `floor_sqrt(n)` squared does not exceed `n`, and its successor squared does.
pub proof fn lemma_floor_sqrt(n: nat)
    ensures
        is_floor_sqrt(n, floor_sqrt(n)),
{
    let r = lemma_floor_sqrt_exists(n);
}

/// Only one natural is the floor square root of `n`.
pub proof fn lemma_floor_sqrt_unique(n: nat, r: nat)
    requires
        is_floor_sqrt(n, r),
    ensures
        floor_sqrt(n) == r,
{
    let s = floor_sqrt(n);
    lemma_floor_sqrt(n);
    if s < r {
        lemma_square_monotone(s + 1, r);
    } else if r < s {
        lemma_square_monotone(r + 1, s);
    }
}

/// Integer square root, rounded down.
pub fn isqrt(n: u128) -> (r: u64)
    ensures
        r == floor_sqrt(n as nat),
{
    let mut lo: u128 = 0;
    let mut hi: u128 = 0x1_0000_0000_0000_0000;
    assert(0x1_0000_0000_0000_0000u128 * 0x1_0000_0000_0000_0000u128 > n) by (nonlinear_arith)
        requires
            n <= u128::MAX,
    ;
    while hi - lo > 1
        invariant
            lo < hi <= 0x1_0000_0000_0000_0000,
            lo * lo <= n < hi * hi,
        decreases hi - lo,
    {
        let mid: u128 = lo + (hi - lo) / 2;
        assert(mid * mid <= 0xffff_ffff_ffff_ffff * 0xffff_ffff_ffff_ffff) by (nonlinear_arith)
            requires
                mid <= 0xffff_ffff_ffff_ffff,
        ;
        if mid * mid <= n {
            lo = mid;
        } else {
            hi = mid;
        }
    }
    proof {
        lemma_floor_sqrt_unique(n as nat, lo as nat);
    }
    lo as u64
}

/// The angle congruent to `a` modulo a full turn that lies in `(-PI, PI]`.
pub open spec fn normalized(a: int) -> int {
    PI - (PI - a) % (TAU as int)
}

/// A normalized angle lies in `(-PI, PI]` and differs from the angle given by
/// whole turns.
pub proof fn lemma_normalized_range(a: int)
    ensures
        -PI < normalized(a) <= PI,
        (normalized(a) - a) % (TAU as int) == 0,
{
}

/// Normalizing an angle already in `(-PI, PI]` changes nothing, so
/// normalizing twice is the same as normalizing once.
pub proof fn lemma_normalized_idempotent(a: int)
    ensures
        -PI < a <= PI ==> normalized(a) == a,
        normalized(normalized(a)) == normalized(a),
{
}

/// Any angle in `(-PI, PI]` that differs from `a` by whole turns is
/// `normalized(a)`.
pub proof fn lemma_normalized_unique(a: int, r: int)
    requires
        -PI < r <= PI,
        (r - a) % (TAU as int) == 0,
    ensures
        normalized(a) == r,
{
}

/// Brings a heading back into `(-PI, PI]` by whole turns.
pub fn clamp_direction(direction: &mut i64)
    ensures
        *final(direction) == normalized(*old(direction) as int),
{
    let wide: i128 = PI as i128 - *direction as i128;
    let turn: i128 = TAU as i128;
    let over: i128 = if wide >= 0 {
        wide % turn
    } else {
        let back: i128 = (-wide) % turn;
        if back == 0 {
            0
        } else {
            turn - back
        }
    };
    *direction = (PI as i128 - over) as i64;
}

} // verus!
