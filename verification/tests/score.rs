use herding_cats::config::Config;
use herding_cats::geometry::Point;
use herding_cats::model::{Player, World};
use herding_cats::player::{update_me, PLAYER_GAIN};
use herding_cats::score::{draw_overlay, percentage, Circle};
use herding_cats::units::SCALE;

fn world_with(spread: i64, score: u64, possible: u64) -> World {
    World {
        screen_half_extent: 300 * SCALE,
        last_cursor_pos: Point { x: 200 * SCALE, y: 200 * SCALE },
        max_cat_pair_distance: spread,
        max_cat_pair_midpoint: Point { x: 4 * SCALE, y: -6 * SCALE },
        score,
        possible_score: possible,
        ticks_since_forced_wake: 12,
    }
}

#[test]
fn a_tight_flock_scores() {
    let cfg = Config::standard();
    let mut world = world_with(150 * SCALE, 3, 7);
    let overlay = draw_overlay(&cfg, &mut world);
    assert_eq!(world.score, 4);
    assert_eq!(world.possible_score, 8);
    assert_eq!(overlay.score, 4);
    assert_eq!(overlay.possible_score, 8);
    assert_eq!(overlay.percentage, 50 * SCALE);
    assert_eq!(overlay.max_cat_pair_distance, 150 * SCALE);
    assert_eq!(
        overlay.success,
        Some(Circle { center: Point { x: 4 * SCALE, y: -6 * SCALE }, radius: 75 * SCALE })
    );
}

#[test]
fn a_loose_flock_does_not_score() {
    let cfg = Config::standard();
    let mut world = world_with(200 * SCALE, 3, 7);
    let overlay = draw_overlay(&cfg, &mut world);
    assert_eq!(world.score, 3);
    assert_eq!(world.possible_score, 8);
    assert_eq!(overlay.percentage, 37_500_000);
    assert_eq!(overlay.success, None);
    let mut world = world_with(200 * SCALE - 1, 3, 7);
    let overlay = draw_overlay(&cfg, &mut world);
    assert_eq!(world.score, 4);
    assert!(overlay.success.is_some());
}

#[test]
fn scoring_touches_nothing_else() {
    let cfg = Config::standard();
    let mut world = world_with(10 * SCALE, 0, 0);
    draw_overlay(&cfg, &mut world);
    let mut expected = world_with(10 * SCALE, 1, 1);
    assert_eq!(world, expected);
    draw_overlay(&cfg, &mut world);
    expected.score = 2;
    expected.possible_score = 2;
    assert_eq!(world, expected);
}

#[test]
fn the_counters_only_grow() {
    let cfg = Config::standard();
    let mut world = world_with(0, 0, 0);
    for tick in 0..100u64 {
        world.max_cat_pair_distance = if tick % 3 == 0 { 100 * SCALE } else { 300 * SCALE };
        let before = world;
        draw_overlay(&cfg, &mut world);
        assert_eq!(world.possible_score, before.possible_score + 1);
        assert_eq!(world.score, before.score + if tick % 3 == 0 { 1 } else { 0 });
    }
    assert_eq!(world.possible_score, 100);
    assert_eq!(world.score, 34);
}

#[test]
fn percentage_rounds_down() {
    assert_eq!(percentage(1, 3), 33_333_333);
    assert_eq!(percentage(2, 3), 66_666_666);
    assert_eq!(percentage(3, 3), 100 * SCALE);
    assert_eq!(percentage(0, 5), 0);
    assert_eq!(percentage(u64::MAX, u64::MAX), 100 * SCALE);
    assert_eq!(percentage(1, u64::MAX), 0);
}

#[test]
fn percentage_of_nothing_played_is_zero() {
    assert_eq!(percentage(0, 0), 0);
}

#[test]
fn a_player_under_a_centred_cursor_stays() {
    let half = Point { x: 400 * SCALE, y: 300 * SCALE };
    let mut world = world_with(0, 0, 0);
    let mut player = Player { position: Point { x: 0, y: 0 }, radius: 30 * SCALE };
    update_me(&mut world, &mut player, Some(half), &half);
    assert_eq!(player.position, Point { x: 0, y: 0 });
    assert_eq!(player.radius, 30 * SCALE);
    assert_eq!(world.last_cursor_pos, half);
}

#[test]
fn the_player_closes_in_on_the_cursor() {
    assert_eq!(PLAYER_GAIN, 10);
    let half = Point { x: 400 * SCALE, y: 300 * SCALE };
    let mut world = world_with(0, 0, 0);
    let mut player = Player { position: Point { x: 0, y: 0 }, radius: 30 * SCALE };
    // The cursor is 100 right of and 100 above the centre of the window.
    let cursor = Point { x: 500 * SCALE, y: 200 * SCALE };
    update_me(&mut world, &mut player, Some(cursor), &half);
    assert_eq!(player.position, Point { x: 2_500_000, y: 3_333_333 });
    update_me(&mut world, &mut player, Some(cursor), &half);
    assert_eq!(player.position, Point { x: 4_937_500, y: 6_555_555 });
}

#[test]
fn the_window_y_axis_points_down() {
    let half = Point { x: 100 * SCALE, y: 100 * SCALE };
    let mut world = world_with(0, 0, 0);
    let mut player = Player { position: Point { x: 0, y: 0 }, radius: 30 * SCALE };
    update_me(&mut world, &mut player, Some(Point { x: 100 * SCALE, y: 150 * SCALE }), &half);
    assert_eq!(player.position, Point { x: 0, y: -5 * SCALE });
}

#[test]
fn without_a_sample_the_last_cursor_is_used() {
    let half = Point { x: 400 * SCALE, y: 400 * SCALE };
    let mut world = world_with(0, 0, 0);
    world.last_cursor_pos = Point { x: 0, y: 0 };
    let before = world;
    let mut player = Player { position: Point { x: 0, y: 0 }, radius: 30 * SCALE };
    update_me(&mut world, &mut player, None, &half);
    // The remembered cursor is the top left corner: 400 left of and 400
    // above the centre.
    assert_eq!(player.position, Point { x: -10 * SCALE, y: 10 * SCALE });
    assert_eq!(world, before);
}

#[test]
fn a_fresh_sample_replaces_the_last_cursor_only() {
    let half = Point { x: 400 * SCALE, y: 400 * SCALE };
    let mut world = world_with(55, 4, 9);
    let mut expected = world;
    let cursor = Point { x: 17, y: 19 };
    let mut player = Player { position: Point { x: 0, y: 0 }, radius: 30 * SCALE };
    update_me(&mut world, &mut player, Some(cursor), &half);
    expected.last_cursor_pos = cursor;
    assert_eq!(world, expected);
}

#[test]
fn a_window_without_extent_holds_the_player() {
    let mut world = world_with(0, 0, 0);
    let mut player = Player { position: Point { x: 7, y: -7 }, radius: 30 * SCALE };
    update_me(&mut world, &mut player, Some(Point { x: 50, y: 50 }), &Point { x: 0, y: 0 });
    assert_eq!(player.position, Point { x: 7, y: -7 });
    update_me(
        &mut world,
        &mut player,
        Some(Point { x: 50 * SCALE, y: 50 * SCALE }),
        &Point { x: 0, y: 100 * SCALE },
    );
    assert_eq!(player.position, Point { x: 7, y: 4_999_993 });
}

#[test]
fn player_moves_round_toward_zero() {
    let half = Point { x: 300 * SCALE, y: 300 * SCALE };
    let mut world = world_with(0, 0, 0);
    let mut player = Player { position: Point { x: 0, y: 0 }, radius: 30 * SCALE };
    update_me(&mut world, &mut player, Some(Point { x: 300 * SCALE - 1, y: 300 * SCALE - 1 }), &half);
    // The offsets are -1 and 1 steps; ten three-hundredths of a step round to zero.
    assert_eq!(player.position, Point { x: 0, y: 0 });
    update_me(&mut world, &mut player, Some(Point { x: 300 * SCALE - 31, y: 300 * SCALE + 31 }), &half);
    assert_eq!(player.position, Point { x: -1, y: -1 });
}
