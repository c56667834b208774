use herding_cats::config::Config;
use herding_cats::geometry::Point;
use herding_cats::integrator::update_positions;
use herding_cats::model::{Bearings, Cat, Heading};
use herding_cats::player::update_me;
use herding_cats::score::draw_overlay;
use herding_cats::setup::setup;
use herding_cats::stir::stir_cats;
use herding_cats::units::{PI, SCALE};
use rand::rngs::StdRng;
use rand::SeedableRng;

fn to_fixed(value: f64) -> i64 {
    (value * SCALE as f64).round() as i64
}

fn to_float(value: i64) -> f64 {
    value as f64 / SCALE as f64
}

fn angle_of(x: i64, y: i64) -> i64 {
    to_fixed(to_float(y).atan2(to_float(x))).clamp(-PI, PI)
}

fn bearings_of(cat: &Cat, player: &Point) -> Bearings {
    let away = angle_of(cat.position.x - player.x, cat.position.y - player.y);
    let from_center = angle_of(cat.position.x, cat.position.y);
    Bearings::new(away, from_center).unwrap()
}

fn heading_of(cat: &Cat) -> Heading {
    let angle = to_float(cat.behavior.direction);
    Heading::new(
        to_fixed(angle.cos()).clamp(-SCALE, SCALE),
        to_fixed(angle.sin()).clamp(-SCALE, SCALE),
    )
    .unwrap()
}

#[test]
fn a_long_game_keeps_every_range() {
    let cfg = Config::standard();
    let half = Point { x: 640 * SCALE, y: 360 * SCALE };
    let mut rng = StdRng::seed_from_u64(2024);
    let mut scene = setup(&cfg, &half, &mut rng);
    let mut scored = 0u64;
    for tick in 0..5000u64 {
        // The cursor circles the centre of the window, and is lost now and then.
        let turn = tick as f64 / 97.0;
        let cursor = if tick % 11 == 10 {
            None
        } else {
            Point::new(
                half.x + to_fixed(200.0 * turn.cos()),
                half.y + to_fixed(150.0 * turn.sin()),
            )
        };
        assert!(scene.world.is_wf());
        update_me(&mut scene.world, &mut scene.player, cursor, &half);
        assert!(scene.player.position.is_wf());

        let bearings: Vec<Bearings> =
            scene.cats.iter().map(|c| bearings_of(c, &scene.player.position)).collect();
        let ticks_before = scene.world.ticks_since_forced_wake;
        let near: Vec<bool> = scene
            .cats
            .iter()
            .map(|c| c.position.distance(&scene.player.position) < cfg.chase_distance)
            .collect();
        stir_cats(
            &cfg,
            &mut scene.world,
            &scene.player.position,
            &mut scene.cats,
            &bearings,
            &mut rng,
        );
        for (k, cat) in scene.cats.iter().enumerate() {
            assert!(cat.is_wf(&cfg));
            assert!(-PI < cat.behavior.direction && cat.behavior.direction <= PI);
            if near[k] {
                assert_eq!(cat.behavior.energy, cfg.chase_energy);
                assert_eq!(cat.behavior.speed, cfg.chase_speed);
            }
        }
        let ticks_after = scene.world.ticks_since_forced_wake;
        assert!(ticks_after == 1 || ticks_after == ticks_before + 1);
        if ticks_before > cfg.min_cat_wakeup {
            assert_eq!(ticks_after, 1);
            assert!(scene.cats.iter().any(|c| c.behavior.energy == cfg.chase_energy));
        }

        let headings: Vec<Heading> = scene.cats.iter().map(heading_of).collect();
        update_positions(&cfg, &mut scene.cats, &headings, &mut rng);
        for cat in scene.cats.iter() {
            assert!(cat.is_wf(&cfg));
            assert!(0 <= cat.behavior.speed && cat.behavior.speed <= cfg.max_speed);
            assert!(0 <= cat.behavior.energy && cat.behavior.energy <= cfg.chase_energy);
        }

        let before = scene.world;
        let overlay = draw_overlay(&cfg, &mut scene.world);
        assert_eq!(scene.world.possible_score, tick + 1);
        let won = before.max_cat_pair_distance < cfg.target_separation;
        assert_eq!(scene.world.score, before.score + won as u64);
        assert_eq!(overlay.success.is_some(), won);
        assert!(0 <= overlay.percentage && overlay.percentage <= 100 * SCALE);
        scored += won as u64;
    }
    assert_eq!(scene.world.score, scored);
    assert_eq!(scene.cats.len(), 9);
    // The cats have been stirred: they did not all stay where they started.
    assert!(scene.cats.iter().any(|c| c.behavior.energy > 0 || c.position.length() > 200 * SCALE));
}

#[test]
fn a_fleeing_cat_runs_from_the_player() {
    let cfg = Config::standard();
    let half = Point { x: 2000 * SCALE, y: 2000 * SCALE };
    let mut rng = StdRng::seed_from_u64(11);
    let mut scene = setup(&Config { cat_count: 1, ..cfg }, &half, &mut rng);
    scene.player.position = Point { x: 0, y: 0 };
    scene.cats[0].position = Point { x: 30 * SCALE, y: 40 * SCALE };
    let start = scene.cats[0].position.distance(&scene.player.position);
    assert_eq!(start, 50 * SCALE);
    for _ in 0..20 {
        let bearings = vec![bearings_of(&scene.cats[0], &scene.player.position)];
        stir_cats(
            &cfg,
            &mut scene.world,
            &scene.player.position,
            &mut scene.cats,
            &bearings,
            &mut rng,
        );
        let headings = vec![heading_of(&scene.cats[0])];
        update_positions(&cfg, &mut scene.cats, &headings, &mut rng);
    }
    let end = scene.cats[0].position.distance(&scene.player.position);
    // Twenty ticks at a little over chase speed, almost straight away.
    assert!(end > start + 39 * SCALE);
    assert!(end < start + 43 * SCALE);
}
