use spacewars::collision::{
    check_collision, check_rocket_collisions, check_rocket_crashes, check_sun_collision,
    update_rocket_status, ROCKET_MARGIN, SUN_MARGIN,
};
use spacewars::flight::fly_rockets;
use spacewars::input::{InputSnapshot, KEY_K, KEY_S};
use spacewars::rocket::{add_rockets, Rocket};
use spacewars::units::{COORD_MAX, ONE};
use spacewars::vec2::Vec2;

const FRAME: u64 = 16_666_667;

fn placed(rocket: Rocket, x: i64, y: i64) -> Rocket {
    Rocket { position: Vec2::new(x, y), ..rocket }
}

fn no_headings() -> Vec<Vec2> {
    Vec::new()
}

#[test]
fn collision_margins_are_the_documented_ones() {
    assert_eq!(SUN_MARGIN, 30 * ONE);
    assert_eq!(ROCKET_MARGIN, 100 * ONE);
}

#[test]
fn collision_is_a_strict_distance_test() {
    let a = Vec2::new(0, 0);
    let b = Vec2::new(3 * ONE, 4 * ONE);
    assert!(check_collision(&a, &b, 5 * ONE + 1));
    assert!(!check_collision(&a, &b, 5 * ONE));
    assert!(!check_collision(&a, &b, 4 * ONE));
    assert!(check_collision(&b, &a, 5 * ONE + 1));
    assert!(check_collision(&a, &a, 1));
}

#[test]
fn nothing_is_closer_than_a_radius_of_zero_or_less() {
    let a = Vec2::new(7, 7);
    assert!(!check_collision(&a, &a, 0));
    assert!(!check_collision(&a, &a, -5 * ONE));
    assert!(!check_collision(&a, &a, i64::MIN));
    assert!(!check_sun_collision(&Vec2::zero(), 0));
    assert!(!check_sun_collision(&Vec2::zero(), -1));
}

#[test]
fn collision_works_across_the_whole_world() {
    let a = Vec2::new(COORD_MAX, COORD_MAX);
    let b = Vec2::new(-COORD_MAX, -COORD_MAX);
    assert!(!check_collision(&a, &b, 2 * COORD_MAX));
    assert!(check_collision(&a, &b, i64::MAX));
    assert!(check_sun_collision(&a, 2 * COORD_MAX));
    assert!(!check_sun_collision(&a, COORD_MAX));
}

#[test]
fn sun_collision_measures_from_the_origin() {
    let p = Vec2::new(-48 * ONE, 64 * ONE);
    assert!(check_sun_collision(&p, 80 * ONE + 1));
    assert!(!check_sun_collision(&p, 80 * ONE));
}

#[test]
fn a_rocket_too_close_to_the_sun_is_eliminated() {
    let start = add_rockets();
    let mut rockets = vec![placed(start[0], 48 * ONE, -64 * ONE + 1), start[1]];
    let flags = update_rocket_status(FRAME, &InputSnapshot::new(), &mut rockets, &no_headings());
    assert_eq!(flags, vec![true, false]);
    let mut rockets = vec![placed(start[0], 48 * ONE, -64 * ONE), start[1]];
    let flags = update_rocket_status(FRAME, &InputSnapshot::new(), &mut rockets, &no_headings());
    assert_eq!(flags, vec![false, false]);
}

#[test]
fn a_lone_rocket_is_tested_against_the_sun_too() {
    let mut rockets = vec![placed(add_rockets()[0], 10 * ONE, 0)];
    let flags = update_rocket_status(FRAME, &InputSnapshot::new(), &mut rockets, &no_headings());
    assert_eq!(flags, vec![true]);
    let mut none: Vec<Rocket> = Vec::new();
    assert!(update_rocket_status(FRAME, &InputSnapshot::new(), &mut none, &no_headings())
        .is_empty());
}

#[test]
fn rockets_at_the_same_place_are_both_eliminated() {
    let start = add_rockets();
    let mut rockets = vec![placed(start[0], 300 * ONE, 300 * ONE), placed(start[1], 300 * ONE, 300 * ONE)];
    let flags = update_rocket_status(FRAME, &InputSnapshot::new(), &mut rockets, &no_headings());
    assert_eq!(flags, vec![true, true]);
    let mut swapped = vec![placed(start[1], 300 * ONE, 300 * ONE), placed(start[0], 300 * ONE, 300 * ONE)];
    let flags = update_rocket_status(FRAME, &InputSnapshot::new(), &mut swapped, &no_headings());
    assert_eq!(flags, vec![true, true]);
}

#[test]
fn rockets_at_the_same_place_survive_without_reach() {
    let start = add_rockets();
    let a = Rocket { radius_collision: -100 * ONE, ..placed(start[0], 300 * ONE, 300 * ONE) };
    let b = placed(start[1], 300 * ONE, 300 * ONE);
    let rockets = vec![a, b];
    assert!(!check_rocket_collisions(&rockets, 0));
    assert!(!check_rocket_collisions(&rockets, 1));
    let rockets = vec![b, a];
    assert!(check_rocket_collisions(&rockets, 0));
    assert!(check_rocket_collisions(&rockets, 1));
}

#[test]
fn rocket_collision_uses_the_first_radius_and_the_margin() {
    let start = add_rockets();
    let a = placed(start[0], 200 * ONE, 200 * ONE);
    let near = placed(start[1], 200 * ONE + 90 * ONE, 200 * ONE + 120 * ONE - 1);
    let far = placed(start[1], 200 * ONE + 90 * ONE, 200 * ONE + 120 * ONE);
    let rockets = vec![a, near];
    assert!(check_rocket_collisions(&rockets, 0));
    assert!(check_rocket_collisions(&rockets, 1));
    let rockets = vec![a, far];
    assert!(!check_rocket_collisions(&rockets, 0));
    assert!(!check_rocket_collisions(&rockets, 1));
    let small = Rocket { radius_collision: 20 * ONE, ..a };
    assert!(!check_rocket_collisions(&vec![small, near], 1));
    assert!(check_rocket_collisions(&vec![near, small], 1));
}

#[test]
fn no_rocket_beyond_the_end_collides() {
    let start = add_rockets();
    let rockets = vec![placed(start[0], 5, 5), placed(start[1], 5, 5)];
    assert!(check_rocket_collisions(&rockets, 1));
    assert!(!check_rocket_collisions(&rockets, 2));
    assert!(!check_rocket_collisions(&Vec::new(), 0));
    assert!(!check_rocket_collisions(&vec![start[0]], 0));
}

#[test]
fn a_third_rocket_far_away_is_untouched() {
    let start = add_rockets();
    let mut rockets = vec![
        placed(start[0], 200 * ONE, 200 * ONE),
        placed(start[1], -300 * ONE, -300 * ONE),
        placed(start[1], 210 * ONE, 190 * ONE),
    ];
    let flags = update_rocket_status(FRAME, &InputSnapshot::new(), &mut rockets, &no_headings());
    assert_eq!(flags, vec![true, false, true]);
}

#[test]
fn the_start_line_up_is_safe() {
    let mut rockets = add_rockets();
    let before = rockets.clone();
    let flags = update_rocket_status(FRAME, &InputSnapshot::new(), &mut rockets, &no_headings());
    assert_eq!(flags, vec![false, false]);
    assert_eq!(rockets, before);
}

#[test]
fn status_update_flies_every_rocket() {
    let mut rockets = add_rockets();
    let before = rockets.clone();
    let keys = InputSnapshot { pressed: vec![KEY_S, KEY_K], just_pressed: Vec::new() };
    let headings = vec![Vec2::new(0, ONE), Vec2::new(600_000, 800_000)];
    let flags = update_rocket_status(FRAME, &keys, &mut rockets, &headings);
    assert_eq!(flags, vec![false, false]);
    assert_eq!(
        rockets[0],
        Rocket {
            speed: 833_333,
            heading: Vec2::new(0, ONE),
            velocity: Vec2::new(0, 833_333),
            position: Vec2::new(-400 * ONE, 200 * ONE + 13_888),
            ..before[0]
        }
    );
    assert_eq!(
        rockets[1],
        Rocket {
            speed: 833_333,
            heading: Vec2::new(600_000, 800_000),
            velocity: Vec2::new(499_999, 666_666),
            position: Vec2::new(400 * ONE + 8_333, -200 * ONE + 11_111),
            ..before[1]
        }
    );
}

#[test]
fn a_rocket_without_a_reported_heading_keeps_its_own() {
    let mut rockets = add_rockets();
    let keys = InputSnapshot { pressed: vec![KEY_S, KEY_K], just_pressed: Vec::new() };
    let headings = vec![Vec2::new(0, ONE)];
    update_rocket_status(FRAME, &keys, &mut rockets, &headings);
    assert_eq!(rockets[0].heading, Vec2::new(0, ONE));
    assert_eq!(rockets[1].heading, Vec2::new(-894_427, 447_213));
    assert_eq!(rockets[1].velocity, Vec2::new(-745_355, 372_677));
}

#[test]
fn crashes_are_judged_where_the_flight_has_taken_the_rockets() {
    let start = add_rockets();
    let at_rim = Rocket {
        speed: 150 * ONE,
        heading: Vec2::new(ONE, 0),
        ..placed(start[0], 80 * ONE, 0)
    };
    let keys = InputSnapshot { pressed: vec![KEY_S], just_pressed: Vec::new() };
    assert_eq!(check_rocket_crashes(&vec![at_rim, start[1]]), vec![false, false]);
    let mut rockets = vec![at_rim, start[1]];
    let flags = update_rocket_status(FRAME, &keys, &mut rockets, &vec![Vec2::new(-ONE, 0)]);
    assert_eq!(rockets[0].position, Vec2::new(77_500_000, 0));
    assert_eq!(flags, vec![true, false]);
    assert_eq!(check_rocket_crashes(&rockets), vec![true, false]);
}

#[test]
fn a_rocket_that_flies_out_of_reach_is_spared() {
    let start = add_rockets();
    let inside = Rocket {
        speed: 150 * ONE,
        heading: Vec2::new(-ONE, 0),
        ..placed(start[0], 80 * ONE - 1, 0)
    };
    let keys = InputSnapshot { pressed: vec![KEY_S], just_pressed: Vec::new() };
    assert_eq!(check_rocket_crashes(&vec![inside, start[1]]), vec![true, false]);
    let mut rockets = vec![inside, start[1]];
    let flags = update_rocket_status(FRAME, &keys, &mut rockets, &vec![Vec2::new(ONE, 0)]);
    assert_eq!(rockets[0].position, Vec2::new(82_499_999, 0));
    assert_eq!(flags, vec![false, false]);
}

#[test]
fn two_rockets_that_fly_into_each_other_both_crash_in_that_frame() {
    let start = add_rockets();
    let a = Rocket { speed: 150 * ONE, ..placed(start[0], 200 * ONE, 300 * ONE) };
    let b = Rocket { speed: 150 * ONE, ..placed(start[1], 355 * ONE, 300 * ONE) };
    let keys = InputSnapshot { pressed: vec![KEY_S, KEY_K], just_pressed: Vec::new() };
    let headings = vec![Vec2::new(ONE, 0), Vec2::new(-ONE, 0)];
    assert_eq!(check_rocket_crashes(&vec![a, b]), vec![false, false]);
    let mut rockets = vec![a, b];
    let flags = update_rocket_status(1_000_000, &keys, &mut rockets, &headings);
    assert_eq!(flags, vec![false, false]);
    let flags = update_rocket_status(FRAME, &keys, &mut rockets, &headings);
    assert_eq!(rockets[0].position, Vec2::new(202_650_000, 300 * ONE));
    assert_eq!(rockets[1].position, Vec2::new(352_350_000, 300 * ONE));
    assert_eq!(flags, vec![true, true]);
}

#[test]
fn crashes_can_be_judged_after_gravity_and_wrap() {
    let start = add_rockets();
    let mut rockets = vec![placed(start[0], 81 * ONE, 0), placed(start[1], -515 * ONE, 0)];
    fly_rockets(FRAME, &InputSnapshot::new(), &mut rockets, &no_headings());
    assert_eq!(check_rocket_crashes(&rockets), vec![false, false]);
    spacewars::gravity::gravitational_pull(&mut rockets, FRAME);
    spacewars::rocket::clip_rockets(&mut rockets);
    assert_eq!(rockets[0].position, Vec2::new(78_500_000, 0));
    assert_eq!(rockets[1].position, Vec2::new(514_869_084, 0));
    assert_eq!(check_rocket_crashes(&rockets), vec![true, false]);
    assert!(check_rocket_crashes(&Vec::new()).is_empty());
}
