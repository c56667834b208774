//! The player's step: the player's agent closes in on the cursor.

use vstd::prelude::*;
use crate::geometry::{shifted, Point};
use crate::model::{Player, World};
use crate::units::{quotient, SCALE};

verus! {

/// How strongly the player is drawn to the cursor: in one tick it covers
/// this many times the remaining offset, divided by the window's half
/// extent in whole units.
pub const PLAYER_GAIN: i64 = 10;

/// The cursor's place in the world: window coordinates have their origin
/// in a corner and `y` growing downward, the world has its origin in the
/// centre and `y` growing upward.
pub open spec fn cursor_in_world(cursor: Point, half_extent: Point) -> (int, int) {
    (cursor.x - half_extent.x, -(cursor.y - half_extent.y))
}

/// How far the player moves along one axis, `delta` away from the cursor in
/// a window of half extent `half`; nothing where the window has no extent.
pub open spec fn approach(delta: int, half: int) -> int {
    if half > 0 {
        quotient(PLAYER_GAIN * delta * SCALE, half)
    } else {
        0
    }
}

/// Where the player stands after a tick with the cursor at `cursor`.
pub open spec fn player_moved(position: Point, cursor: Point, half_extent: Point) -> Point {
    let target = cursor_in_world(cursor, half_extent);
    Point {
        x: shifted(position.x as int, approach(target.0 - position.x, half_extent.x as int)) as i64,
        y: shifted(position.y as int, approach(target.1 - position.y, half_extent.y as int)) as i64,
    }
}

/// A player that stands where the cursor points stays there.
pub proof fn lemma_player_rests_on_cursor(position: Point, cursor: Point, half_extent: Point)
    requires
        position.wf(),
        cursor_in_world(cursor, half_extent) == (position.x as int, position.y as int),
    ensures
        player_moved(position, cursor, half_extent) == position,
{
}

/// In a window at least `PLAYER_GAIN` whole units wide each way, the player
/// moves toward the cursor and never past it.
pub proof fn lemma_player_never_overshoots(delta: int, half: int)
    requires
        half >= PLAYER_GAIN * SCALE,
    ensures
        delta >= 0 ==> 0 <= approach(delta, half) <= delta,
        delta <= 0 ==> delta <= approach(delta, half) <= 0,
{
    let size = if delta >= 0 {
        delta
    } else {
        -delta
    };
    let top = PLAYER_GAIN * size * SCALE;
    assert(0 <= top <= half * size) by (nonlinear_arith)
        requires
            top == PLAYER_GAIN * size * SCALE,
            half >= PLAYER_GAIN * SCALE,
            PLAYER_GAIN * SCALE > 0,
            size >= 0,
    ;
    assert(0 <= top / half <= size) by (nonlinear_arith)
        requires
            0 <= top <= half * size,
            half > 0,
    ;
    if delta < 0 {
        assert(-(PLAYER_GAIN * delta * SCALE) == top) by (nonlinear_arith)
            requires
                top == PLAYER_GAIN * size * SCALE,
                size == -delta,
        ;
    }
}

/// The player's movement along one axis.
fn approach_axis(delta: i128, half: i64) -> (step: i128)
    requires
        -4_000_000_000_000 <= delta <= 4_000_000_000_000,
    ensures
        step == approach(delta as int, half as int),
{
    if half > 0 {
        assert(-40_000_000_000_000 <= PLAYER_GAIN * delta <= 40_000_000_000_000)
            by (nonlinear_arith)
            requires
                -4_000_000_000_000 <= delta <= 4_000_000_000_000,
                PLAYER_GAIN == 10,
        ;
        let pull: i128 = PLAYER_GAIN as i128 * delta;
        assert(-40_000_000_000_000_000_000 <= pull * SCALE <= 40_000_000_000_000_000_000)
            by (nonlinear_arith)
            requires
                -40_000_000_000_000 <= pull <= 40_000_000_000_000,
                SCALE == 1_000_000,
        ;
        pull * (SCALE as i128) / (half as i128)
    } else {
        0
    }
}

/// Moves the player toward the cursor. A fresh cursor sample is remembered
/// in the world; without one the last remembered position is used.
/// `half_extent` is half the window's width and half its height.
pub fn update_me(
    world: &mut World,
    player: &mut Player,
    cursor: Option<Point>,
    half_extent: &Point,
)
    requires
        old(world).wf(),
        old(player).position.wf(),
        half_extent.wf(),
        cursor matches Some(c) ==> c.wf(),
    ensures
        final(world).last_cursor_pos == (match cursor {
            Some(c) => c,
            None => old(world).last_cursor_pos,
        }),
        *final(world) == (World { last_cursor_pos: final(world).last_cursor_pos, ..*old(world) }),
        final(player).position == player_moved(
            old(player).position,
            final(world).last_cursor_pos,
            *half_extent,
        ),
        final(player).radius == old(player).radius,
        final(world).wf(),
        final(player).position.wf(),
{
    let mouse_pos: Point = match cursor {
        Some(c) => {
            world.last_cursor_pos = c;
            c
        },
        None => world.last_cursor_pos,
    };
    let target_x: i128 = mouse_pos.x as i128 - half_extent.x as i128;
    let target_y: i128 = -(mouse_pos.y as i128 - half_extent.y as i128);
    let step_x: i128 = approach_axis(target_x - player.position.x as i128, half_extent.x);
    let step_y: i128 = approach_axis(target_y - player.position.y as i128, half_extent.y);
    player.position = player.position.offset(step_x, step_y);
}

} // verus!
