use herding_cats::config::Config;
use herding_cats::geometry::{Point, WORLD_LIMIT};
use herding_cats::integrator::{
    integrate, update_positions, update_positions_with, ACCELERATION, ENERGY_DECAY, HESITATION,
    STALL_SPEED,
};
use herding_cats::model::{Behavior, Cat, Heading, UNIT_SLACK};
use herding_cats::units::SCALE;
use rand::rngs::StdRng;
use rand::SeedableRng;

fn cat_with(energy: i64, speed: i64) -> Cat {
    Cat {
        position: Point { x: 0, y: 0 },
        radius: 10 * SCALE,
        behavior: Behavior { energy, direction: 0, speed },
    }
}

const EAST: Heading = Heading { cos: SCALE, sin: 0 };
const GO: i64 = SCALE - 1;

#[test]
fn integrator_constants() {
    assert_eq!(ENERGY_DECAY, SCALE);
    assert_eq!(ACCELERATION, SCALE / 10);
    assert_eq!(STALL_SPEED, SCALE / 5);
    assert_eq!(HESITATION, SCALE / 1000);
}

#[test]
fn a_slow_tired_cat_stops_at_once() {
    let cfg = Config::standard();
    let mut cat = cat_with(0, 150_000);
    integrate(&cfg, &mut cat, &EAST, GO);
    assert_eq!(cat.behavior.speed, 0);
    assert_eq!(cat.behavior.energy, 0);
    assert_eq!(cat.position, Point { x: 0, y: 0 });
}

#[test]
fn the_stall_speed_itself_stops_the_cat() {
    let cfg = Config::standard();
    let mut cat = cat_with(0, 200_000);
    integrate(&cfg, &mut cat, &EAST, GO);
    assert_eq!(cat.behavior.speed, 0);
    assert_eq!(cat.position, Point { x: 0, y: 0 });
    let mut cat = cat_with(0, 200_001);
    integrate(&cfg, &mut cat, &EAST, GO);
    assert_eq!(cat.behavior.speed, 100_001);
    assert_eq!(cat.position, Point { x: 100_001, y: 0 });
}

#[test]
fn a_tired_cat_slows_down() {
    let cfg = Config::standard();
    let mut cat = cat_with(0, SCALE);
    integrate(&cfg, &mut cat, &Heading { cos: 0, sin: -SCALE }, GO);
    assert_eq!(cat.behavior, Behavior { energy: 0, direction: 0, speed: 900_000 });
    assert_eq!(cat.position, Point { x: 0, y: -900_000 });
}

#[test]
fn an_eager_cat_speeds_up() {
    let cfg = Config::standard();
    let mut cat = cat_with(5 * SCALE, SCALE);
    integrate(&cfg, &mut cat, &Heading { cos: 600_000, sin: 800_000 }, GO);
    assert_eq!(cat.behavior, Behavior { energy: 4 * SCALE, direction: 0, speed: 1_100_000 });
    assert_eq!(cat.position, Point { x: 660_000, y: 880_000 });
}

#[test]
fn a_hesitating_cat_keeps_its_speed() {
    let cfg = Config::standard();
    let mut cat = cat_with(5 * SCALE, SCALE);
    integrate(&cfg, &mut cat, &EAST, HESITATION);
    assert_eq!(cat.behavior, Behavior { energy: 4 * SCALE, direction: 0, speed: SCALE });
    assert_eq!(cat.position, Point { x: SCALE, y: 0 });
    let mut cat = cat_with(5 * SCALE, SCALE);
    integrate(&cfg, &mut cat, &EAST, HESITATION + 1);
    assert_eq!(cat.behavior.speed, 1_100_000);
}

#[test]
fn the_last_unit_of_energy_is_dropped() {
    let cfg = Config::standard();
    let mut cat = cat_with(SCALE, SCALE);
    integrate(&cfg, &mut cat, &EAST, GO);
    assert_eq!(cat.behavior, Behavior { energy: 0, direction: 0, speed: 900_000 });
    let mut cat = cat_with(SCALE + 1, SCALE);
    integrate(&cfg, &mut cat, &EAST, GO);
    assert_eq!(cat.behavior, Behavior { energy: 1, direction: 0, speed: 1_100_000 });
}

#[test]
fn the_speed_limit_applies_after_the_move() {
    let cfg = Config::standard();
    let mut cat = cat_with(5 * SCALE, 10 * SCALE);
    integrate(&cfg, &mut cat, &EAST, GO);
    assert_eq!(cat.position, Point { x: 10_100_000, y: 0 });
    assert_eq!(cat.behavior.speed, 10 * SCALE);
}

#[test]
fn strides_round_toward_zero() {
    let cfg = Config::standard();
    let mut cat = cat_with(0, 300_001);
    integrate(&cfg, &mut cat, &Heading { cos: -600_000, sin: 800_000 }, GO);
    // The speed is 0.200001 when the cat moves: -0.1200006 and 0.1600008.
    assert_eq!(cat.position, Point { x: -120_000, y: 160_000 });
    let mut cat = cat_with(0, 300_003);
    integrate(&cfg, &mut cat, &Heading { cos: -600_000, sin: 800_000 }, GO);
    assert_eq!(cat.position, Point { x: -120_001, y: 160_002 });
}

#[test]
fn a_cat_stops_at_the_edge_of_the_plane() {
    let cfg = Config::standard();
    let mut cat = cat_with(0, 5 * SCALE);
    cat.position = Point { x: WORLD_LIMIT - 1, y: 0 };
    integrate(&cfg, &mut cat, &EAST, GO);
    assert_eq!(cat.position, Point { x: WORLD_LIMIT, y: 0 });
}

#[test]
fn headings_must_be_unit_vectors() {
    assert_eq!(Heading::new(SCALE, 0), Some(Heading { cos: SCALE, sin: 0 }));
    assert_eq!(Heading::new(0, -SCALE), Some(Heading { cos: 0, sin: -SCALE }));
    assert_eq!(Heading::new(-600_000, 800_000), Some(Heading { cos: -600_000, sin: 800_000 }));
    assert_eq!(Heading::new(707_107, 707_107), Some(Heading { cos: 707_107, sin: 707_107 }));
    assert_eq!(Heading::new(SCALE + 1, 0), None);
    assert_eq!(Heading::new(0, -SCALE - 1), None);
    assert_eq!(Heading::new(SCALE, -SCALE), None);
    assert_eq!(Heading::new(0, 0), None);
    assert_eq!(Heading::new(500_000, 500_000), None);
    assert_eq!(Heading::new(i64::MAX, i64::MIN), None);
}

#[test]
fn the_slack_of_a_unit_vector_is_four_millionths() {
    assert_eq!(UNIT_SLACK, 4 * SCALE);
    // 1 + 0.002 squared is 1.000004, the most that is let through.
    assert!(Heading { cos: SCALE, sin: 2_000 }.is_wf());
    assert!(!Heading { cos: SCALE, sin: 2_001 }.is_wf());
    // 0.999998 squared is a little more than 1 - 0.000004.
    assert!(Heading { cos: 999_998, sin: 0 }.is_wf());
    assert!(!Heading { cos: 999_997, sin: 0 }.is_wf());
}

#[test]
fn a_cat_moves_no_farther_than_its_speed() {
    let cfg = Config::standard();
    for (cos, sin) in [(SCALE, 2_000), (707_108, 707_108), (-600_000, 800_000), (2_000, -SCALE)] {
        let heading = Heading::new(cos, sin).unwrap();
        for speed in [0, 1, 250_000, 3 * SCALE, 10 * SCALE] {
            let mut cat = cat_with(0, speed + ACCELERATION);
            integrate(&cfg, &mut cat, &heading, GO);
            let moved = cat.position.length() as i128;
            let speed = speed as i128;
            assert!(moved * moved * 1_000_000 <= speed * speed * 1_000_004);
        }
    }
}

#[test]
fn each_cat_moves_along_its_own_heading() {
    let cfg = Config::standard();
    let mut cats = vec![cat_with(0, SCALE), cat_with(3 * SCALE, 0), cat_with(0, 100_000)];
    let headings = vec![EAST, Heading { cos: 0, sin: SCALE }, Heading { cos: -SCALE, sin: 0 }];
    update_positions_with(&cfg, &mut cats, &headings, &vec![GO, GO, GO]);
    assert_eq!(cats[0].position, Point { x: 900_000, y: 0 });
    assert_eq!(cats[1].position, Point { x: 0, y: 100_000 });
    assert_eq!(cats[2].position, Point { x: 0, y: 0 });
    assert_eq!(cats[0].behavior.speed, 900_000);
    assert_eq!(cats[1].behavior, Behavior { energy: 2 * SCALE, direction: 0, speed: 100_000 });
    assert_eq!(cats[2].behavior.speed, 0);
}

#[test]
fn a_random_tick_keeps_every_range() {
    let cfg = Config::standard();
    let mut rng = StdRng::seed_from_u64(5);
    let mut cats = vec![cat_with(50 * SCALE, 0), cat_with(0, 10 * SCALE), cat_with(7 * SCALE, SCALE)];
    let headings = vec![EAST, Heading { cos: 0, sin: SCALE }, Heading { cos: -SCALE, sin: 0 }];
    for _ in 0..200 {
        let before = cats.clone();
        update_positions(&cfg, &mut cats, &headings, &mut rng);
        for (k, cat) in cats.iter().enumerate() {
            assert!(cat.is_wf(&cfg));
            assert_eq!(cat.behavior.direction, before[k].behavior.direction);
            assert!(cat.behavior.energy <= before[k].behavior.energy);
        }
    }
    assert_eq!(cats[0].behavior.energy, 0);
    assert_eq!(cats[1].behavior.speed, 0);
}
