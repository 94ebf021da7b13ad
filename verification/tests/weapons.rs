use spacewars::bullet::{
    check_bullet_coll, check_bullet_spent, check_rocket_hit, fire, handle_bullet_movement,
    spawn_bullet, Bullet, BULLET_MARGIN, BULLET_SPEED, HIT_RADIUS, SPAWN_OFFSET,
};
use spacewars::input::{InputSnapshot, KEY_I, KEY_W};
use spacewars::rocket::{add_rockets, Rocket};
use spacewars::units::ONE;
use spacewars::vec2::Vec2;

const FRAME: u64 = 16_666_667;
const MS: u64 = 1_000_000;

fn striking(keys: &[u32]) -> InputSnapshot {
    InputSnapshot { pressed: keys.to_vec(), just_pressed: keys.to_vec() }
}

fn bullet_at(x: i64, y: i64, owner: u64) -> Bullet {
    Bullet { position: Vec2::new(x, y), heading: Vec2::new(0, ONE), speed: BULLET_SPEED, owner }
}

#[test]
fn weapon_constants_are_the_documented_ones() {
    assert_eq!(SPAWN_OFFSET, 50 * ONE);
    assert_eq!(BULLET_SPEED, 300 * ONE);
    assert_eq!(HIT_RADIUS, 30 * ONE);
    assert_eq!(BULLET_MARGIN, 130 * ONE);
}

#[test]
fn a_shot_appears_ahead_of_the_rocket() {
    let mut rocket = add_rockets()[0];
    let before = rocket;
    let shot = fire(600 * MS, &striking(&[KEY_W]), &mut rocket);
    assert_eq!(
        shot,
        Some(Bullet {
            position: Vec2::new(-355_278_650, 177_639_350),
            heading: Vec2::new(894_427, -447_213),
            speed: 300 * ONE,
            owner: 0,
        })
    );
    assert_eq!(rocket, Rocket { last_shot_time: 600 * MS, ..before });
    assert!(shot.unwrap().is_valid());
}

#[test]
fn the_bullet_speed_does_not_depend_on_the_rocket() {
    let mut rocket = Rocket {
        position: Vec2::zero(),
        heading: Vec2::new(0, ONE),
        speed: 150 * ONE,
        velocity: Vec2::new(0, 150 * ONE),
        ..add_rockets()[1]
    };
    let shot = fire(300 * MS, &striking(&[KEY_I]), &mut rocket).unwrap();
    assert_eq!(shot, bullet_at(0, 50 * ONE, 1));
}

#[test]
fn firing_twice_within_the_cooldown_gives_one_projectile() {
    let mut rocket = add_rockets()[0];
    let keys = striking(&[KEY_W]);
    assert!(fire(1_000 * MS, &keys, &mut rocket).is_some());
    let after_first = rocket;
    assert!(fire(1_000 * MS, &keys, &mut rocket).is_none());
    assert!(fire(1_250 * MS, &keys, &mut rocket).is_none());
    assert!(fire(1_500 * MS - 1, &keys, &mut rocket).is_none());
    assert_eq!(rocket, after_first);
    assert_eq!(rocket.last_shot_time, 1_000 * MS);
}

#[test]
fn firing_after_the_cooldown_gives_a_second_projectile() {
    let mut rocket = add_rockets()[0];
    let keys = striking(&[KEY_W]);
    assert!(fire(1_000 * MS, &keys, &mut rocket).is_some());
    assert!(fire(1_500 * MS, &keys, &mut rocket).is_some());
    assert_eq!(rocket.last_shot_time, 1_500 * MS);
    assert!(fire(1_999 * MS, &keys, &mut rocket).is_none());
    assert!(fire(5_000 * MS, &keys, &mut rocket).is_some());
}

#[test]
fn the_cooldown_also_runs_from_the_start_of_the_match() {
    let mut rocket = add_rockets()[0];
    let keys = striking(&[KEY_W]);
    assert!(fire(0, &keys, &mut rocket).is_none());
    assert!(fire(499 * MS, &keys, &mut rocket).is_none());
    assert!(fire(500 * MS, &keys, &mut rocket).is_some());
}

#[test]
fn a_clock_that_runs_backwards_fires_nothing() {
    let mut rocket = Rocket { last_shot_time: 2_000 * MS, cooldown: 0, ..add_rockets()[0] };
    let before = rocket;
    assert!(fire(1_999 * MS, &striking(&[KEY_W]), &mut rocket).is_none());
    assert_eq!(rocket, before);
    assert!(fire(2_000 * MS, &striking(&[KEY_W]), &mut rocket).is_some());
}

#[test]
fn a_held_key_does_not_fire() {
    let mut rocket = add_rockets()[0];
    let held = InputSnapshot { pressed: vec![KEY_W], just_pressed: Vec::new() };
    assert!(fire(1_000 * MS, &held, &mut rocket).is_none());
    let other = striking(&[KEY_I]);
    assert!(fire(1_000 * MS, &other, &mut rocket).is_none());
    assert_eq!(rocket.last_shot_time, 0);
}

#[test]
fn spawn_bullet_returns_the_shots_in_rocket_order() {
    let mut rockets = add_rockets();
    let both = striking(&[KEY_I, KEY_W]);
    let shots = spawn_bullet(400 * MS, &both, &mut rockets);
    assert_eq!(shots.len(), 1);
    assert_eq!(shots[0].owner, 1);
    assert_eq!(shots[0].position, Vec2::new(355_278_650, -177_639_350));
    assert_eq!(rockets[0].last_shot_time, 0);
    assert_eq!(rockets[1].last_shot_time, 400 * MS);

    let shots = spawn_bullet(700 * MS, &both, &mut rockets);
    assert_eq!(shots.len(), 2);
    assert_eq!((shots[0].owner, shots[1].owner), (0, 1));
    assert_eq!(rockets[0].last_shot_time, 700 * MS);
    assert_eq!(rockets[1].last_shot_time, 700 * MS);

    let shots = spawn_bullet(800 * MS, &both, &mut rockets);
    assert!(shots.is_empty());
    let shots = spawn_bullet(5_000 * MS, &InputSnapshot::new(), &mut rockets);
    assert!(shots.is_empty());
}

#[test]
fn a_bullet_flying_up_gains_five_units_in_a_sixtieth() {
    let mut bullets = vec![bullet_at(-400 * ONE, 200 * ONE, 0)];
    let retired = handle_bullet_movement(FRAME, &mut bullets);
    assert_eq!(bullets[0].position, Vec2::new(-400 * ONE, 205 * ONE));
    assert_eq!(bullets[0], bullet_at(-400 * ONE, 205 * ONE, 0));
    assert_eq!(retired, vec![false]);
}

#[test]
fn bullets_move_along_their_heading() {
    let mut bullets = vec![
        Bullet { heading: Vec2::new(600_000, -800_000), ..bullet_at(0, 0, 0) },
        Bullet { heading: Vec2::new(894_427, -447_213), speed: 100 * ONE, ..bullet_at(7, 7, 1) },
    ];
    handle_bullet_movement(FRAME, &mut bullets);
    assert_eq!(bullets[0].position, Vec2::new(3_000_000, -4_000_000));
    assert_eq!(bullets[1].position, Vec2::new(1_490_718, -745_348));
    assert_eq!(bullets[1].heading, Vec2::new(894_427, -447_213));
    assert_eq!(bullets[1].speed, 100 * ONE);
}

#[test]
fn a_bullet_counts_a_long_frame_in_full() {
    let mut bullets = vec![bullet_at(0, 0, 0)];
    handle_bullet_movement(2_000_000_000, &mut bullets);
    assert_eq!(bullets[0].position, Vec2::new(0, 600 * ONE));
    handle_bullet_movement(0, &mut bullets);
    assert_eq!(bullets[0].position, Vec2::new(0, 600 * ONE + 300));
}

#[test]
fn a_short_heading_does_not_slow_a_bullet_down() {
    let mut bullets = vec![
        Bullet { heading: Vec2::new(300_000, -400_000), ..bullet_at(0, 0, 0) },
        Bullet { heading: Vec2::zero(), ..bullet_at(5, 5, 0) },
    ];
    handle_bullet_movement(FRAME, &mut bullets);
    assert_eq!(bullets[0].position, Vec2::new(3_000_000, -4_000_000));
    assert_eq!(bullets[0].heading, Vec2::new(300_000, -400_000));
    assert_eq!(bullets[1].position, Vec2::new(5, 5));
}

#[test]
fn a_shot_appears_a_full_offset_ahead() {
    let mut rocket = Rocket {
        position: Vec2::zero(),
        heading: Vec2::new(-300_000, 400_000),
        ..add_rockets()[0]
    };
    let shot = fire(600 * MS, &striking(&[KEY_W]), &mut rocket).unwrap();
    assert_eq!(shot.position, Vec2::new(-30 * ONE, 40 * ONE));
    assert_eq!(shot.heading, Vec2::new(-300_000, 400_000));
}

#[test]
fn bullets_retire_beyond_the_margin() {
    let edge = 510 * ONE;
    let mut bullets = vec![
        bullet_at(0, edge - 5 * ONE, 0),
        bullet_at(0, edge - 5 * ONE + 1, 0),
        Bullet { heading: Vec2::new(0, -ONE), ..bullet_at(0, -edge + 5 * ONE, 1) },
        Bullet { heading: Vec2::new(0, -ONE), ..bullet_at(0, -edge + 5 * ONE - 1, 1) },
        Bullet { heading: Vec2::new(ONE, 0), ..bullet_at(900 * ONE, 0, 1) },
    ];
    let retired = handle_bullet_movement(FRAME, &mut bullets);
    assert_eq!(bullets[0].position.y, edge);
    assert_eq!(bullets[3].position.y, -edge - 1);
    assert_eq!(retired, vec![false, true, false, true, false]);
    assert_eq!(bullets.len(), 5);
}

#[test]
fn a_foreign_bullet_within_reach_hits() {
    let rockets = add_rockets();
    let bullets = vec![
        bullet_at(-400 * ONE + 18 * ONE, 200 * ONE - 24 * ONE + 1, 1),
        bullet_at(0, 0, 1),
    ];
    let hits = check_bullet_coll(&rockets, &bullets);
    assert_eq!(hits.rockets, vec![true, false]);
    assert_eq!(hits.bullets, vec![true, false]);
}

#[test]
fn a_bullet_at_exactly_the_hit_radius_misses() {
    let rockets = add_rockets();
    let bullets = vec![bullet_at(-400 * ONE + 18 * ONE, 200 * ONE - 24 * ONE, 1)];
    let hits = check_bullet_coll(&rockets, &bullets);
    assert_eq!(hits.rockets, vec![false, false]);
    assert_eq!(hits.bullets, vec![false]);
}

#[test]
fn a_rocket_is_never_hit_by_its_own_bullet() {
    let rockets = add_rockets();
    let own = bullet_at(-400 * ONE, 200 * ONE, 0);
    assert!(!check_rocket_hit(&rockets[0], &vec![own]));
    assert!(!check_bullet_spent(&own, &rockets));
    let foreign = Bullet { owner: 1, ..own };
    assert!(check_rocket_hit(&rockets[0], &vec![own, foreign]));
    assert!(check_bullet_spent(&foreign, &rockets));
    let hits = check_bullet_coll(&rockets, &vec![own, foreign]);
    assert_eq!(hits.rockets, vec![true, false]);
    assert_eq!(hits.bullets, vec![false, true]);
}

#[test]
fn many_hits_flag_a_rocket_once() {
    let rockets = add_rockets();
    let bullets = vec![
        bullet_at(400 * ONE, -200 * ONE, 0),
        bullet_at(401 * ONE, -200 * ONE, 0),
        bullet_at(400 * ONE, -199 * ONE, 7),
    ];
    let hits = check_bullet_coll(&rockets, &bullets);
    assert_eq!(hits.rockets, vec![false, true]);
    assert_eq!(hits.bullets, vec![true, true, true]);
}

#[test]
fn nothing_to_test_gives_no_flags() {
    let hits = check_bullet_coll(&Vec::new(), &Vec::new());
    assert!(hits.rockets.is_empty() && hits.bullets.is_empty());
    let hits = check_bullet_coll(&add_rockets(), &Vec::new());
    assert_eq!(hits.rockets, vec![false, false]);
    assert!(hits.bullets.is_empty());
    let hits = check_bullet_coll(&Vec::new(), &vec![bullet_at(0, 0, 0)]);
    assert_eq!(hits.bullets, vec![false]);
}
