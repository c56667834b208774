use herding_cats::config::Config;
use herding_cats::geometry::Point;
use herding_cats::model::{Behavior, Cat, Player, World};
use herding_cats::setup::{setup, setup_with, spawn_cat, SpawnDraw, CAT_RADIUS, PLAYER_RADIUS, START};
use herding_cats::units::{PI, SCALE, TAU};
use rand::rngs::StdRng;
use rand::SeedableRng;

#[test]
fn standard_parameters() {
    let cfg = Config::standard();
    assert!(cfg.is_wf());
    assert_eq!(cfg.cat_count, 9);
    assert_eq!(cfg.cat_repel_dist, 75 * SCALE);
    assert_eq!(cfg.cat_attract_dist, 100 * SCALE);
    assert_eq!(cfg.chase_speed, 2 * SCALE);
    assert_eq!(cfg.chase_energy, 50 * SCALE);
    assert_eq!(cfg.chase_distance, 200 * SCALE);
    assert_eq!(cfg.turn_away, 100_000);
    assert_eq!(cfg.edge_repel, 100 * SCALE);
    assert_eq!(cfg.does_cat_play, 50_000);
    assert_eq!(cfg.max_speed, 10 * SCALE);
    assert_eq!(cfg.wake_cat, 200);
    assert_eq!(cfg.target_separation, 200 * SCALE);
    assert_eq!(cfg.min_cat_wakeup, 300);
    assert_eq!(cfg.cat_direction_change, 30_000);
    assert_eq!(Config::default(), cfg);
}

#[test]
fn unusable_parameters_are_told_apart() {
    let good = Config::standard();
    assert!(!Config { chase_speed: good.max_speed + 1, ..good }.is_wf());
    assert!(!Config { chase_speed: -1, ..good }.is_wf());
    assert!(!Config { chase_energy: -1, ..good }.is_wf());
    assert!(!Config { turn_away: TAU + 1, ..good }.is_wf());
    assert!(!Config { edge_repel: -1, ..good }.is_wf());
    assert!(!Config { does_cat_play: SCALE + 1, ..good }.is_wf());
    assert!(!Config { wake_cat: -1, ..good }.is_wf());
    assert!(!Config { min_cat_wakeup: u64::MAX, ..good }.is_wf());
    assert!(!Config { cat_direction_change: TAU + 1, ..good }.is_wf());
    assert!(Config { cat_count: 0, chase_speed: 0, chase_energy: 0, ..good }.is_wf());
}

#[test]
fn opening_constants() {
    assert_eq!(START, 200 * SCALE);
    assert_eq!(PLAYER_RADIUS, 30 * SCALE);
    assert_eq!(CAT_RADIUS, 10 * SCALE);
}

#[test]
fn a_cat_is_placed_by_its_samples() {
    let cfg = Config::standard();
    let half = Point { x: 400 * SCALE, y: 300 * SCALE };
    let cat = spawn_cat(&cfg, &half, &SpawnDraw { x: 0, y: SCALE / 2, direction: 0 });
    assert_eq!(
        cat,
        Cat {
            position: Point { x: -100 * SCALE, y: 0 },
            radius: 10 * SCALE,
            behavior: Behavior { energy: 0, direction: 0, speed: 0 },
        }
    );
    let cat = spawn_cat(&cfg, &half, &SpawnDraw { x: SCALE - 1, y: SCALE / 4, direction: SCALE / 2 });
    assert_eq!(cat.position, Point { x: 100 * SCALE - 200, y: -37_500_000 });
    assert_eq!(cat.behavior.direction, PI);
    let cat = spawn_cat(&cfg, &half, &SpawnDraw { x: 0, y: 0, direction: 3 * SCALE / 4 });
    assert_eq!(cat.behavior.direction, 4_712_389 - TAU);
    let cat = spawn_cat(&cfg, &half, &SpawnDraw { x: 0, y: 0, direction: SCALE - 1 });
    assert_eq!(cat.behavior.direction, -7);
}

#[test]
fn a_window_without_extent_puts_cats_at_the_centre() {
    let cfg = Config::standard();
    for half in [Point { x: 0, y: 0 }, Point { x: 3, y: -8 * SCALE }] {
        let cat = spawn_cat(&cfg, &half, &SpawnDraw { x: 17, y: SCALE - 1, direction: 0 });
        assert_eq!(cat.position, Point { x: 0, y: 0 });
    }
}

#[test]
fn the_opening_scene_from_samples() {
    let cfg = Config::standard();
    let half = Point { x: 640 * SCALE, y: 360 * SCALE };
    let draws = vec![
        SpawnDraw { x: 0, y: 0, direction: 0 },
        SpawnDraw { x: SCALE / 2, y: SCALE / 2, direction: SCALE / 4 },
    ];
    let scene = setup_with(&cfg, &half, &draws);
    assert_eq!(
        scene.world,
        World {
            screen_half_extent: 360 * SCALE,
            last_cursor_pos: Point { x: 200 * SCALE, y: 200 * SCALE },
            max_cat_pair_distance: 0,
            max_cat_pair_midpoint: Point { x: 0, y: 0 },
            score: 0,
            possible_score: 0,
            ticks_since_forced_wake: 0,
        }
    );
    assert_eq!(
        scene.player,
        Player { position: Point { x: 200 * SCALE, y: 200 * SCALE }, radius: 30 * SCALE }
    );
    assert_eq!(scene.cats.len(), 2);
    assert_eq!(scene.cats[0].position, Point { x: -160 * SCALE, y: -90 * SCALE });
    assert_eq!(scene.cats[1].position, Point { x: 0, y: 0 });
    assert_eq!(scene.cats[1].behavior.direction, 1_570_796);
    let narrow = setup_with(&cfg, &Point { x: 100 * SCALE, y: 500 * SCALE }, &vec![]);
    assert_eq!(narrow.world.screen_half_extent, 100 * SCALE);
    assert!(narrow.cats.is_empty());
}

#[test]
fn a_random_opening_scene() {
    let cfg = Config::standard();
    let half = Point { x: 640 * SCALE, y: 360 * SCALE };
    let mut rng = StdRng::seed_from_u64(1);
    let scene = setup(&cfg, &half, &mut rng);
    assert_eq!(scene.cats.len(), 9);
    assert!(scene.world.is_wf());
    assert_eq!(scene.world.screen_half_extent, 360 * SCALE);
    assert_eq!(scene.player.position, Point { x: START, y: START });
    for cat in scene.cats.iter() {
        assert!(cat.is_wf(&cfg));
        assert!(-160 * SCALE <= cat.position.x && cat.position.x < 160 * SCALE);
        assert!(-90 * SCALE <= cat.position.y && cat.position.y < 90 * SCALE);
        assert_eq!(cat.behavior.energy, 0);
        assert_eq!(cat.behavior.speed, 0);
        assert_eq!(cat.radius, CAT_RADIUS);
    }
    assert!(scene.cats.iter().any(|c| c.position != scene.cats[0].position));
    let again = setup(&cfg, &half, &mut StdRng::seed_from_u64(1));
    assert_eq!(again.cats, scene.cats);
    let fewer = setup(&Config { cat_count: 2, ..cfg }, &half, &mut rng);
    assert_eq!(fewer.cats.len(), 2);
}
