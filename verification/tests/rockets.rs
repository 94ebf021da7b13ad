use spacewars::input::{
    RocketControls, KEY_A, KEY_D, KEY_I, KEY_J, KEY_K, KEY_L, KEY_S, KEY_W,
};
use spacewars::rocket::{
    add_rockets, clip_rockets, wrap_position, Rocket, H_CLIP, ROCKET_MAX_SPEED, ROCKET_RADIUS,
    W_CLIP,
};
use spacewars::units::{COORD_MAX, ONE, SPEED_MAX};
use spacewars::vec2::Vec2;

#[test]
fn a_match_starts_with_two_rockets_facing_the_sun() {
    let rockets = add_rockets();
    assert_eq!(rockets.len(), 2);
    let a = rockets[0];
    let b = rockets[1];
    assert_eq!(a.position, Vec2::new(-400 * ONE, 200 * ONE));
    assert_eq!(b.position, Vec2::new(400 * ONE, -200 * ONE));
    assert_eq!(a.heading, Vec2::new(894_427, -447_213));
    assert_eq!(b.heading, Vec2::new(-894_427, 447_213));
    assert_eq!((a.id, b.id), (0, 1));
    for r in [a, b] {
        assert_eq!(r.speed, 0);
        assert_eq!(r.max_speed, ROCKET_MAX_SPEED);
        assert_eq!(r.max_speed, 150 * ONE);
        assert_eq!(r.velocity, Vec2::zero());
        assert_eq!(r.rotation_speed, 0);
        assert_eq!(r.radius_collision, ROCKET_RADIUS);
        assert_eq!(r.radius_collision, 50 * ONE);
        assert_eq!(r.last_shot_time, 0);
        assert!(r.is_valid());
    }
    assert_eq!(a.cooldown, 500_000_000);
    assert_eq!(b.cooldown, 300_000_000);
}

#[test]
fn the_two_players_share_no_key() {
    let rockets = add_rockets();
    assert_eq!(
        rockets[0].controls,
        RocketControls { rotate_left: KEY_A, rotate_right: KEY_D, accelerate: KEY_S, spawn: KEY_W }
    );
    assert_eq!(
        rockets[1].controls,
        RocketControls { rotate_left: KEY_J, rotate_right: KEY_L, accelerate: KEY_K, spawn: KEY_I }
    );
    assert!(!rockets[0].controls.overlaps(&rockets[1].controls));
}

#[test]
fn validity_checks_every_cap() {
    let good = add_rockets()[0];
    assert!(good.is_valid());
    assert!(!Rocket { speed: -1, ..good }.is_valid());
    assert!(!Rocket { speed: good.max_speed + 1, ..good }.is_valid());
    assert!(!Rocket { max_speed: -1, speed: 0, ..good }.is_valid());
    assert!(!Rocket { max_speed: SPEED_MAX + 1, ..good }.is_valid());
    assert!(Rocket { max_speed: SPEED_MAX, ..good }.is_valid());
    assert!(!Rocket { position: Vec2::new(COORD_MAX + 1, 0), ..good }.is_valid());
    assert!(!Rocket { heading: Vec2::new(ONE, 1), ..good }.is_valid());
    assert!(!Rocket { velocity: Vec2::new(150 * ONE, 1), ..good }.is_valid());
    assert!(Rocket { velocity: Vec2::new(-90 * ONE, 120 * ONE), ..good }.is_valid());
    assert!(!Rocket { rotation_speed: 1_221_731, ..good }.is_valid());
    assert!(Rocket { rotation_speed: -1_221_730, ..good }.is_valid());
    assert!(!Rocket { radius_collision: COORD_MAX + 1, ..good }.is_valid());
}

#[test]
fn wrap_mirrors_x_beyond_the_right_edge() {
    let p = wrap_position(Vec2::new(515 * ONE, 0));
    assert_eq!(p, Vec2::new(-515 * ONE, 0));
}

#[test]
fn wrap_mirrors_each_axis_on_its_own() {
    assert_eq!(wrap_position(Vec2::new(-511 * ONE, 7)), Vec2::new(511 * ONE, 7));
    assert_eq!(wrap_position(Vec2::new(12, 381 * ONE)), Vec2::new(12, -381 * ONE));
    assert_eq!(wrap_position(Vec2::new(12, -380 * ONE - 1)), Vec2::new(12, 380 * ONE + 1));
    assert_eq!(
        wrap_position(Vec2::new(600 * ONE, -400 * ONE)),
        Vec2::new(-600 * ONE, 400 * ONE)
    );
}

#[test]
fn wrap_leaves_the_playfield_alone() {
    for p in [
        Vec2::new(0, 0),
        Vec2::new(W_CLIP, H_CLIP),
        Vec2::new(-W_CLIP, -H_CLIP),
        Vec2::new(W_CLIP, -17),
        Vec2::new(-400 * ONE, 200 * ONE),
    ] {
        assert_eq!(wrap_position(p), p);
    }
    assert_eq!(wrap_position(Vec2::new(W_CLIP + 1, 0)), Vec2::new(-W_CLIP - 1, 0));
}

#[test]
fn wrapping_twice_returns_the_position() {
    let p = Vec2::new(700 * ONE, -500 * ONE);
    assert_eq!(wrap_position(wrap_position(p)), p);
}

#[test]
fn clip_rockets_changes_positions_only() {
    let mut rockets = add_rockets();
    rockets[0].position = Vec2::new(515 * ONE, 100 * ONE);
    rockets[0].velocity = Vec2::new(30 * ONE, -40 * ONE);
    rockets[0].speed = 50 * ONE;
    rockets[1].position = Vec2::new(-20 * ONE, -390 * ONE);
    let before = rockets.clone();
    clip_rockets(&mut rockets);
    assert_eq!(rockets[0], Rocket { position: Vec2::new(-515 * ONE, 100 * ONE), ..before[0] });
    assert_eq!(rockets[1], Rocket { position: Vec2::new(-20 * ONE, 390 * ONE), ..before[1] });
}

#[test]
fn clip_rockets_takes_any_number_of_rockets() {
    let mut none: Vec<Rocket> = Vec::new();
    clip_rockets(&mut none);
    assert!(none.is_empty());
    let mut inside = add_rockets();
    let before = inside.clone();
    clip_rockets(&mut inside);
    assert_eq!(inside, before);
}

#[test]
fn a_rocket_is_set_up_at_rest_facing_the_sun() {
    let controls = add_rockets()[0].controls;
    let made = Rocket::new(7, Vec2::new(0, -300 * ONE), 90 * ONE, 20 * ONE, controls, 250);
    assert_eq!(
        made,
        Some(Rocket {
            id: 7,
            position: Vec2::new(0, -300 * ONE),
            heading: Vec2::new(0, ONE),
            speed: 0,
            max_speed: 90 * ONE,
            velocity: Vec2::zero(),
            rotation_speed: 0,
            radius_collision: 20 * ONE,
            controls,
            cooldown: 250,
            last_shot_time: 0,
        })
    );
    assert!(made.unwrap().is_valid());
    let on_sun = Rocket::new(8, Vec2::zero(), 0, -COORD_MAX, controls, 0).unwrap();
    assert_eq!(on_sun.heading, Vec2::zero());
    assert!(on_sun.is_valid());
}

#[test]
fn a_rocket_outside_the_limits_is_not_set_up() {
    let controls = add_rockets()[0].controls;
    let here = Vec2::new(COORD_MAX, -COORD_MAX);
    assert!(Rocket::new(0, here, SPEED_MAX, COORD_MAX, controls, 0).is_some());
    assert!(Rocket::new(0, Vec2::new(COORD_MAX + 1, 0), 1, 1, controls, 0).is_none());
    assert!(Rocket::new(0, Vec2::new(0, -COORD_MAX - 1), 1, 1, controls, 0).is_none());
    assert!(Rocket::new(0, here, -1, 1, controls, 0).is_none());
    assert!(Rocket::new(0, here, SPEED_MAX + 1, 1, controls, 0).is_none());
    assert!(Rocket::new(0, here, 1, COORD_MAX + 1, controls, 0).is_none());
    assert!(Rocket::new(0, here, 1, -COORD_MAX - 1, controls, 0).is_none());
}
