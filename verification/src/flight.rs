//! Thrust, steering and the motion they give a rocket.
//!
//! Orientation lives with the host, which turns the rocket and reports where
//! its nose points. A frame therefore takes two calls: `turn_angle` says how
//! far the rocket turns, and `handle_rocket_movement` is given the orientation
//! after that turn.

use vstd::prelude::*;
use crate::input::{InputSnapshot, RocketInput};
use crate::rocket::{all_wf, Rocket};
use crate::units::{
    clamp, effective_dt, integrate, integrate_up, lemma_mul_div_within, lemma_over_time_floor,
    lemma_over_time_magnitude, lemma_over_time_up, lemma_scaled_length, over_time, over_time_up,
    NANOS_PER_SEC, ONE,
};
use crate::vec2::{lemma_as_direction, lemma_component_within, Vec2};

verus! {

/// Forward acceleration while the thrust key is down, and the rate at which
/// speed decays while it is up: fifty units per second squared.
pub const THRUST_ACCEL: i64 = 50_000_000;

/// Angular acceleration while one turn key is down: two hundred degrees per
/// second squared.
pub const ANGULAR_ACCEL: i64 = 3_490_659;

/// The fastest a rocket turns: seventy degrees per second.
pub const MAX_ROTATION_SPEED: i64 = 1_221_730;

/// One frame of flight as a rocket sees it: what the player asks, where the
/// nose points after the turn, and how long the frame lasts.
#[derive(Clone, Copy, Debug, PartialEq, Eq, Structural)]
pub struct Frame {
    pub input: RocketInput,
    pub heading: Vec2,
    pub dt: u64,
}

/// Forward speed after one frame: up by `THRUST_ACCEL` over the frame while
/// accelerating, down by as much otherwise, and always from zero to
/// `max_speed`. The gain is rounded toward zero and the loss is rounded up,
/// so that a coasting rocket is at rest no later than the exact rate has it.
pub open spec fn next_speed(speed: int, max_speed: int, accelerate: bool, dt: u64) -> int {
    if accelerate {
        clamp(speed + over_time(THRUST_ACCEL as int, dt), 0, max_speed)
    } else {
        clamp(speed - over_time_up(THRUST_ACCEL as int, dt), 0, max_speed)
    }
}

/// The turn the player asks for: `1` to the left, `-1` to the right, and `0`
/// when both keys or neither are down.
pub open spec fn rotation_input(left: bool, right: bool) -> int {
    (if left { 1int } else { 0int }) - (if right { 1int } else { 0int })
}

/// Angular velocity after one frame, held within `MAX_ROTATION_SPEED` either
/// way.
pub open spec fn next_rotation_speed(rotation_speed: int, left: bool, right: bool, dt: u64) -> int {
    clamp(
        rotation_speed + rotation_input(left, right) * over_time(ANGULAR_ACCEL as int, dt),
        -(MAX_ROTATION_SPEED as int),
        MAX_ROTATION_SPEED as int,
    )
}

impl Rocket {
    /// The angle the rocket turns by in this frame: its new angular velocity
    /// over the frame.
    pub open spec fn turn(self, input: RocketInput, dt: u64) -> int {
        over_time(
            next_rotation_speed(
                self.rotation_speed as int,
                input.rotate_left,
                input.rotate_right,
                dt,
            ),
            dt,
        )
    }

    /// The rocket after one frame of flight. Speed and angular velocity follow
    /// the input; the velocity is the new speed along the new orientation and
    /// replaces whatever gravity had added; the position advances by the
    /// velocity over the frame.
    pub open spec fn moved(self, input: RocketInput, heading: Vec2, dt: u64) -> Rocket {
        let speed = next_speed(self.speed as int, self.max_speed as int, input.accelerate, dt);
        let heading = heading.as_direction();
        let velocity = heading.scaled(speed, ONE as int);
        Rocket {
            speed: speed as i64,
            rotation_speed: next_rotation_speed(
                self.rotation_speed as int,
                input.rotate_left,
                input.rotate_right,
                dt,
            ) as i64,
            heading,
            velocity,
            position: self.position.travelled(velocity, dt),
            ..self
        }
    }

    /// The rocket after a run of frames, oldest first.
    pub open spec fn flown(self, frames: Seq<Frame>) -> Rocket
        decreases frames.len(),
    {
        if frames.len() == 0 {
            self
        } else {
            self.flown(frames.drop_last()).moved(
                frames.last().input,
                frames.last().heading,
                frames.last().dt,
            )
        }
    }
}

/// The orientation rocket `i` flies with: the one the host reports for it,
/// or the one it has if the host reports none.
pub open spec fn heading_for(rockets: Seq<Rocket>, headings: Seq<Vec2>, i: int) -> Vec2 {
    if i < headings.len() {
        headings[i]
    } else {
        rockets[i].heading
    }
}

/// The time a run of frames takes, in nanoseconds.
pub open spec fn time_coasted(frames: Seq<Frame>) -> int
    decreases frames.len(),
{
    if frames.len() == 0 {
        0
    } else {
        time_coasted(frames.drop_last()) + effective_dt(frames.last().dt)
    }
}

/// The speed a rocket loses over a run of frames without thrust, if it has as
/// much to lose.
pub open spec fn speed_lost(frames: Seq<Frame>) -> int
    decreases frames.len(),
{
    if frames.len() == 0 {
        0
    } else {
        speed_lost(frames.drop_last()) + over_time_up(THRUST_ACCEL as int, frames.last().dt)
    }
}

/// No frame of the run has the thrust key down.
pub open spec fn coasting(frames: Seq<Frame>) -> bool {
    forall|i: int| 0 <= i < frames.len() ==> !(#[trigger] frames[i]).input.accelerate
}

/// The angle, counter-clockwise positive, by which the host turns the rocket
/// in this frame. With both turn keys down, or neither, the rocket keeps the
/// angular velocity it has.
pub fn turn_angle(dt: u64, keys: &InputSnapshot, rocket: &Rocket) -> (angle: i64)
    ensures
        angle == rocket.turn(rocket.controls.resolved(keys), dt),
{
    let input = rocket.controls.resolve(keys);
    let rotation_speed: i64 = steer(rocket.rotation_speed, input.rotate_left, input.rotate_right, dt);
    proof {
        lemma_over_time_magnitude(rotation_speed as int, MAX_ROTATION_SPEED as int, dt);
    }
    let angle: i128 = integrate(rotation_speed, dt);
    angle as i64
}

/// Angular velocity after one frame.
pub fn steer(rotation_speed: i64, left: bool, right: bool, dt: u64) -> (r: i64)
    ensures
        r == next_rotation_speed(rotation_speed as int, left, right, dt),
        -MAX_ROTATION_SPEED <= r <= MAX_ROTATION_SPEED,
{
    let step: i128 = integrate(ANGULAR_ACCEL, dt);
    assert(rotation_input(left, right) * step == (if left { step as int } else { 0 }) - (if right {
        step as int
    } else {
        0
    })) by (nonlinear_arith);
    let mut wide: i128 = rotation_speed as i128;
    if left {
        wide = wide + step;
    }
    if right {
        wide = wide - step;
    }
    if wide < -(MAX_ROTATION_SPEED as i128) {
        -MAX_ROTATION_SPEED
    } else if wide > MAX_ROTATION_SPEED as i128 {
        MAX_ROTATION_SPEED
    } else {
        wide as i64
    }
}

/// Forward speed after one frame.
pub fn throttle(speed: i64, max_speed: i64, accelerate: bool, dt: u64) -> (r: i64)
    ensures
        r == next_speed(speed as int, max_speed as int, accelerate, dt),
        0 <= max_speed ==> 0 <= r <= max_speed,
{
    let wide: i128 = if accelerate {
        speed as i128 + integrate(THRUST_ACCEL, dt)
    } else {
        speed as i128 - integrate_up(THRUST_ACCEL, dt)
    };
    if wide < 0 {
        0
    } else if wide > max_speed as i128 {
        max_speed
    } else {
        wide as i64
    }
}

/// Flies one rocket through one frame. `heading` is where the nose points
/// once the host has turned the rocket by `turn_angle`; a vector longer than
/// one unit is shrunk to one unit.
///
/// Thrust raises the speed while the thrust key is down and lets it decay
/// otherwise. The velocity is set to the speed along the heading, which drops
/// the pull of gravity from the frame before, and the position moves by the
/// velocity over the frame.
pub fn handle_rocket_movement(dt: u64, keys: &InputSnapshot, rocket: &mut Rocket, heading: Vec2)
    requires
        old(rocket).wf(),
    ensures
        *final(rocket) == old(rocket).moved(old(rocket).controls.resolved(keys), heading, dt),
        final(rocket).wf(),
        0 <= final(rocket).speed <= final(rocket).max_speed,
        !keys.holds(old(rocket).controls.accelerate) ==> final(rocket).speed <= old(rocket).speed,
        !keys.holds(old(rocket).controls.accelerate) && old(rocket).speed > 0
            ==> final(rocket).speed < old(rocket).speed,
        -MAX_ROTATION_SPEED <= final(rocket).rotation_speed <= MAX_ROTATION_SPEED,
        final(rocket).velocity.len_sq() <= final(rocket).speed * final(rocket).speed,
{
    let input = rocket.controls.resolve(keys);
    proof {
        lemma_moved_wf(*rocket, input, heading, dt);
        if !input.accelerate {
            lemma_speed_decays(rocket.speed as int, rocket.max_speed as int, dt);
        }
    }
    let speed: i64 = throttle(rocket.speed, rocket.max_speed, input.accelerate, dt);
    let rotation_speed: i64 = steer(rocket.rotation_speed, input.rotate_left, input.rotate_right, dt);
    let direction: Vec2 = heading.direction();
    proof {
        lemma_component_within(direction.x as int, direction.y as int, ONE as int);
    }
    let velocity: Vec2 = direction.scale_by(speed, ONE);
    rocket.speed = speed;
    rocket.rotation_speed = rotation_speed;
    rocket.heading = direction;
    rocket.velocity = velocity;
    rocket.position = rocket.position.travel(velocity, dt);
}

/// Flies every rocket through one frame. `headings[i]` is where the nose of
/// rocket `i` points after its turn, as for `handle_rocket_movement`; a rocket
/// without an entry keeps its orientation.
pub fn fly_rockets(dt: u64, keys: &InputSnapshot, rockets: &mut Vec<Rocket>, headings: &Vec<Vec2>)
    requires
        all_wf(old(rockets)@),
    ensures
        final(rockets)@.len() == old(rockets)@.len(),
        forall|i: int|
            0 <= i < old(rockets)@.len() ==> final(rockets)@[i] == (#[trigger] old(
                rockets,
            )@[i]).moved(
                old(rockets)@[i].controls.resolved(keys),
                heading_for(old(rockets)@, headings@, i),
                dt,
            ),
        all_wf(final(rockets)@),
{
    let mut i: usize = 0;
    while i < rockets.len()
        invariant
            i <= rockets@.len(),
            rockets@.len() == old(rockets)@.len(),
            all_wf(old(rockets)@),
            forall|j: int|
                0 <= j < i ==> rockets@[j] == (#[trigger] old(rockets)@[j]).moved(
                    old(rockets)@[j].controls.resolved(keys),
                    heading_for(old(rockets)@, headings@, j),
                    dt,
                ),
            forall|j: int| i <= j < rockets@.len() ==> rockets@[j] == old(rockets)@[j],
            forall|j: int| 0 <= j < i ==> (#[trigger] rockets@[j]).wf(),
        decreases rockets@.len() - i,
    {
        let mut rocket: Rocket = rockets[i];
        assert(old(rockets)@[i as int].wf());
        let heading: Vec2 = if i < headings.len() {
            headings[i]
        } else {
            rocket.heading
        };
        handle_rocket_movement(dt, keys, &mut rocket, heading);
        rockets.set(i, rocket);
        i += 1;
    }
}

/// A frame of flight keeps a well-formed rocket well-formed, and whatever the
/// rocket was, leaves its angular velocity within `MAX_ROTATION_SPEED`.
pub proof fn lemma_moved_wf(r: Rocket, input: RocketInput, heading: Vec2, dt: u64)
    ensures
        -MAX_ROTATION_SPEED <= r.moved(input, heading, dt).rotation_speed <= MAX_ROTATION_SPEED,
        r.wf() ==> r.moved(input, heading, dt).wf(),
        r.wf() ==> r.moved(input, heading, dt).speed == next_speed(
            r.speed as int,
            r.max_speed as int,
            input.accelerate,
            dt,
        ),
        r.wf() ==> r.moved(input, heading, dt).velocity.len_sq() <= r.moved(
            input,
            heading,
            dt,
        ).speed * r.moved(input, heading, dt).speed,
{
    if r.wf() {
        let speed = next_speed(r.speed as int, r.max_speed as int, input.accelerate, dt);
        let h = heading.as_direction();
        lemma_as_direction(heading);
        lemma_component_within(h.x as int, h.y as int, ONE as int);
        lemma_mul_div_within(h.x as int, speed, ONE as int);
        lemma_mul_div_within(h.y as int, speed, ONE as int);
        lemma_scaled_length(h.x as int, h.y as int, speed, ONE as int);
        let v = h.scaled(speed, ONE as int);
        assert(v.len_sq() <= speed * speed);
        assert(speed * speed <= r.max_speed * r.max_speed) by (nonlinear_arith)
            requires
                0 <= speed <= r.max_speed,
        ;
    }
}

/// Flight keeps a well-formed rocket well-formed over any run of frames.
pub proof fn lemma_flown_wf(r: Rocket, frames: Seq<Frame>)
    requires
        r.wf(),
    ensures
        r.flown(frames).wf(),
    decreases frames.len(),
{
    if frames.len() > 0 {
        lemma_flown_wf(r, frames.drop_last());
        lemma_moved_wf(
            r.flown(frames.drop_last()),
            frames.last().input,
            frames.last().heading,
            frames.last().dt,
        );
    }
}

/// After any run of at least one frame, whatever keys were down, the angular
/// velocity is within `MAX_ROTATION_SPEED` either way.
pub proof fn lemma_rotation_speed_bounded(r: Rocket, frames: Seq<Frame>)
    requires
        frames.len() > 0,
    ensures
        -MAX_ROTATION_SPEED <= r.flown(frames).rotation_speed <= MAX_ROTATION_SPEED,
{
    lemma_moved_wf(
        r.flown(frames.drop_last()),
        frames.last().input,
        frames.last().heading,
        frames.last().dt,
    );
}

/// With the thrust key up, one frame never raises the speed, never takes it
/// below zero, and takes the whole loss of the frame off a speed that can
/// spare it. No frame is too short to slow a moving rocket down.
pub proof fn lemma_speed_decays(speed: int, max_speed: int, dt: u64)
    requires
        0 <= speed <= max_speed,
    ensures
        0 <= next_speed(speed, max_speed, false, dt) <= speed,
        next_speed(speed, max_speed, false, dt) == (if speed >= over_time_up(
            THRUST_ACCEL as int,
            dt,
        ) {
            speed - over_time_up(THRUST_ACCEL as int, dt)
        } else {
            0
        }),
        over_time_up(THRUST_ACCEL as int, dt) >= 50,
        speed > 0 ==> next_speed(speed, max_speed, false, dt) < speed,
{
    lemma_over_time_floor(THRUST_ACCEL as int, 50, dt);
    lemma_over_time_up(THRUST_ACCEL as int, dt);
}

/// Coasting drives the speed to zero. Over any run of frames without thrust,
/// of whatever lengths, the speed is the starting speed less the losses of the
/// frames, or zero once they exceed it: it never rises from one frame to the
/// next and never is negative. As soon as `THRUST_ACCEL` over the time coasted
/// reaches the starting speed the rocket is at rest, and it stays at rest in
/// every frame after.
pub proof fn lemma_coasting_stops(r: Rocket, frames: Seq<Frame>)
    requires
        r.wf(),
        coasting(frames),
    ensures
        r.flown(frames).speed == (if r.speed >= speed_lost(frames) {
            r.speed - speed_lost(frames)
        } else {
            0
        }),
        0 <= r.flown(frames).speed <= r.speed,
        frames.len() > 0 ==> r.flown(frames).speed <= r.flown(frames.drop_last()).speed,
        speed_lost(frames) * NANOS_PER_SEC >= THRUST_ACCEL * time_coasted(frames),
        speed_lost(frames) >= 50 * frames.len(),
        THRUST_ACCEL * time_coasted(frames) >= r.speed * NANOS_PER_SEC ==> r.flown(frames).speed
            == 0,
    decreases frames.len(),
{
    if frames.len() > 0 {
        let before = r.flown(frames.drop_last());
        let last = frames.last();
        assert(coasting(frames.drop_last()));
        lemma_coasting_stops(r, frames.drop_last());
        lemma_flown_wf(r, frames.drop_last());
        lemma_moved_wf(before, last.input, last.heading, last.dt);
        lemma_speed_decays(before.speed as int, before.max_speed as int, last.dt);
        lemma_over_time_up(THRUST_ACCEL as int, last.dt);
    }
}

} // verus!
