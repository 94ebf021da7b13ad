//! The pull of the sun.

use vstd::prelude::*;
use crate::flight::{lemma_moved_wf, lemma_speed_decays, Frame};
use crate::input::RocketInput;
use crate::rocket::{all_wf, Rocket};
use crate::units::{
    clamp_coord, effective_dt, integrate, lemma_mul_div_sign, lemma_mul_div_within,
    lemma_over_time_magnitude, lemma_over_time_sign, lemma_trunc_div_bounds,
    lemma_trunc_div_exact, lemma_trunc_div_monotonic, magnitude, mul_div, over_time, COORD_MAX,
    NANOS_PER_SEC,
};
use crate::sqrt::{ceil_sqrt, floor_sqrt, lemma_ceil_sqrt_bounds, lemma_floor_sqrt_exists};
use crate::vec2::{lemma_component_within, lemma_with_len_bounds, Vec2};

verus! {

/// Strength of the sun. The acceleration at distance `d` is 125 000 000 / `d²`
/// units per second squared with `d` in units; brought to fixed point, this
/// constant divided by a squared distance in steps gives an acceleration in
/// steps.
pub const G_CONSTANT: i128 = 125_000_000_000_000_000_000_000_000;

/// Closer to the sun than this, gravity is switched off.
pub const MIN_GRAVITY_RADIUS: i64 = 65_000_000;

/// The longest frame gravity is integrated over, a little more than three
/// years: over a longer one the speed gained at the rim of the dead zone no
/// longer fits a 64-bit number.
pub const DT_MAX: u64 = 100_000_000_000_000_000;

/// The point is closer to the sun than `MIN_GRAVITY_RADIUS`.
pub open spec fn in_dead_zone(p: Vec2) -> bool {
    p.len_sq() < MIN_GRAVITY_RADIUS * MIN_GRAVITY_RADIUS
}

/// The acceleration toward the sun at a squared distance of `d2`: the inverse
/// square law.
pub open spec fn gravity_force(d2: int) -> int {
    G_CONSTANT as int / d2
}

/// The speed toward the sun that gravity adds at `p` over one frame, as a
/// vector.
pub open spec fn gravity_gain(p: Vec2, dt: u64) -> Vec2 {
    p.reversed().with_len(over_time(gravity_force(p.len_sq()), dt))
}

/// A velocity cut back to the length `max_speed` if it is longer.
pub open spec fn capped(v: Vec2, max_speed: int) -> Vec2 {
    if v.len_sq() > max_speed * max_speed {
        v.with_len(max_speed)
    } else {
        v
    }
}

impl Rocket {
    /// The rocket after one frame of gravity. In the dead zone nothing
    /// happens. Elsewhere the velocity gains the pull of the sun, is cut back
    /// to `max_speed`, and moves the rocket once more in this frame.
    pub open spec fn pulled(self, dt: u64) -> Rocket {
        if in_dead_zone(self.position) {
            self
        } else {
            let gain = gravity_gain(self.position, dt);
            let velocity = capped(
                Vec2 {
                    x: (self.velocity.x + gain.x) as i64,
                    y: (self.velocity.y + gain.y) as i64,
                },
                self.max_speed as int,
            );
            Rocket {
                velocity,
                position: self.position.travelled(velocity, dt),
                ..self
            }
        }
    }
}

/// `b` lies between zero and `a`, both included.
pub open spec fn toward_zero(a: int, b: int) -> bool {
    (a >= 0 ==> 0 <= b <= a) && (a <= 0 ==> a <= b <= 0)
}

/// The rocket is where gravity is sure to move it: outside the dead zone and
/// within a thousand units of the sun on either axis, with a speed cap of one
/// unit per second or more.
pub open spec fn on_wide_field(r: Rocket) -> bool {
    &&& !in_dead_zone(r.position)
    &&& -1_000_000_000 <= r.position.x <= 1_000_000_000
    &&& -1_000_000_000 <= r.position.y <= 1_000_000_000
    &&& r.max_speed >= 1_000_000
}

/// The rocket after a run of ticks, oldest first: each tick is a frame of
/// flight followed by a frame of gravity of the same length.
pub open spec fn after_ticks(r: Rocket, ticks: Seq<Frame>) -> Rocket
    decreases ticks.len(),
{
    if ticks.len() == 0 {
        r
    } else {
        after_ticks(r, ticks.drop_last()).moved(
            ticks.last().input,
            ticks.last().heading,
            ticks.last().dt,
        ).pulled(ticks.last().dt)
    }
}

/// No tick of the run has the thrust key down or lasts longer than forty
/// milliseconds.
pub open spec fn drifting(ticks: Seq<Frame>) -> bool {
    forall|i: int|
        0 <= i < ticks.len() ==> !(#[trigger] ticks[i]).input.accelerate && ticks[i].dt
            <= 40_000_000
}

/// Applies one frame of gravity to one rocket.
pub fn pull_rocket(rocket: &mut Rocket, dt: u64)
    requires
        old(rocket).wf(),
        dt <= DT_MAX,
    ensures
        *final(rocket) == old(rocket).pulled(dt),
        final(rocket).wf(),
        final(rocket).velocity.len_sq() <= final(rocket).max_speed * final(rocket).max_speed,
        in_dead_zone(old(rocket).position) ==> *final(rocket) == *old(rocket),
{
    proof {
        lemma_pulled_wf(*rocket, dt);
    }
    let d2: u128 = rocket.position.length_squared();
    assert(MIN_GRAVITY_RADIUS * MIN_GRAVITY_RADIUS == 4_225_000_000_000_000) by (nonlinear_arith);
    if d2 < 4_225_000_000_000_000 {
        return;
    }
    proof {
        lemma_gravity_force_bounds(d2 as int);
        assert(d2 <= 2 * (COORD_MAX * COORD_MAX)) by (nonlinear_arith)
            requires
                rocket.position.in_world(),
                d2 == rocket.position.len_sq(),
        ;
        assert(COORD_MAX * COORD_MAX
            == 1_000_000_000_000_000_000_000_000_000_000) by (nonlinear_arith);
    }
    let force: i64 = (G_CONSTANT / (d2 as i128)) as i64;
    proof {
        lemma_gain_speed_bounds(d2 as int, dt);
    }
    let gain_speed: i64 = integrate(force, dt) as i64;
    let gain: Vec2 = rocket.position.reverse().with_length(gain_speed);
    proof {
        lemma_component_within(gain.x as int, gain.y as int, gain_speed as int);
        lemma_component_within(
            rocket.velocity.x as int,
            rocket.velocity.y as int,
            rocket.max_speed as int,
        );
    }
    let mut velocity = Vec2 { x: rocket.velocity.x + gain.x, y: rocket.velocity.y + gain.y };
    assert(rocket.max_speed * rocket.max_speed <= 1_000_000_000_000_000_000_000_000)
        by (nonlinear_arith)
        requires
            0 <= rocket.max_speed <= 1_000_000_000_000,
    ;
    let cap: u128 = (rocket.max_speed as u128) * (rocket.max_speed as u128);
    if velocity.length_squared() > cap {
        velocity = velocity.with_length(rocket.max_speed);
    }
    rocket.velocity = velocity;
    rocket.position = rocket.position.travel(velocity, dt);
}

/// Applies one frame of gravity to every rocket. A rocket in the dead zone is
/// left exactly as it is; any other leaves with a velocity no longer than its
/// `max_speed`.
pub fn gravitational_pull(rockets: &mut Vec<Rocket>, dt: u64)
    requires
        all_wf(old(rockets)@),
        dt <= DT_MAX,
    ensures
        final(rockets)@.len() == old(rockets)@.len(),
        forall|i: int|
            0 <= i < old(rockets)@.len() ==> final(rockets)@[i] == (#[trigger] old(
                rockets,
            )@[i]).pulled(dt),
        forall|i: int|
            0 <= i < old(rockets)@.len() && in_dead_zone((#[trigger] old(rockets)@[i]).position)
                ==> final(rockets)@[i] == old(rockets)@[i],
        forall|i: int|
            0 <= i < old(rockets)@.len() ==> (#[trigger] final(rockets)@[i]).velocity.len_sq()
                <= final(rockets)@[i].max_speed * final(rockets)@[i].max_speed,
        all_wf(final(rockets)@),
{
    let mut i: usize = 0;
    while i < rockets.len()
        invariant
            i <= rockets@.len(),
            rockets@.len() == old(rockets)@.len(),
            all_wf(old(rockets)@),
            dt <= DT_MAX,
            forall|j: int| 0 <= j < i ==> rockets@[j] == (#[trigger] old(rockets)@[j]).pulled(dt),
            forall|j: int| i <= j < rockets@.len() ==> rockets@[j] == old(rockets)@[j],
            forall|j: int| 0 <= j < i ==> (#[trigger] rockets@[j]).wf(),
        decreases rockets@.len() - i,
    {
        let mut rocket: Rocket = rockets[i];
        assert(old(rockets)@[i as int].wf());
        pull_rocket(&mut rocket, dt);
        rockets.set(i, rocket);
        i += 1;
    }
    proof {
        assert forall|i: int|
            0 <= i < old(rockets)@.len() && in_dead_zone(
                (#[trigger] old(rockets)@[i]).position,
            ) implies rockets@[i] == old(rockets)@[i] by {
            lemma_pulled_wf(old(rockets)@[i], dt);
        }
    }
}

/// Outside the dead zone the pull is at most thirty thousand units per second
/// squared.
pub proof fn lemma_gravity_force_bounds(d2: int)
    requires
        d2 >= MIN_GRAVITY_RADIUS * MIN_GRAVITY_RADIUS,
    ensures
        0 <= gravity_force(d2) <= 30_000_000_000,
{
    let q = G_CONSTANT as int / d2;
    assert(MIN_GRAVITY_RADIUS * MIN_GRAVITY_RADIUS == 4_225_000_000_000_000) by (nonlinear_arith);
    assert(0 <= q <= 30_000_000_000) by (nonlinear_arith)
        requires
            d2 >= 4_225_000_000_000_000,
            q == 125_000_000_000_000_000_000_000_000int / d2,
    ;
}

/// Outside the dead zone, over a frame of at most `DT_MAX`, gravity adds a
/// speed of zero or more that fits a 64-bit number with room to spare.
pub proof fn lemma_gain_speed_bounds(d2: int, dt: u64)
    requires
        d2 >= MIN_GRAVITY_RADIUS * MIN_GRAVITY_RADIUS,
        dt <= DT_MAX,
    ensures
        0 <= over_time(gravity_force(d2), dt) <= 3_000_000_000_000_000_000,
{
    lemma_gravity_force_bounds(d2);
    lemma_over_time_sign(gravity_force(d2), dt);
    lemma_over_time_magnitude(gravity_force(d2), 30_000_000_000, dt);
    assert(effective_dt(dt) <= 100_000_000_000_000_000);
}

/// Gravity keeps a well-formed rocket well-formed; in particular the velocity
/// it leaves is never longer than `max_speed`. In the dead zone it changes
/// nothing at all.
pub proof fn lemma_pulled_wf(r: Rocket, dt: u64)
    requires
        r.wf(),
        dt <= DT_MAX,
    ensures
        r.pulled(dt).wf(),
        r.pulled(dt).velocity.len_sq() <= r.max_speed * r.max_speed,
        in_dead_zone(r.position) ==> r.pulled(dt) == r,
{
    if !in_dead_zone(r.position) {
        let p = r.position;
        let gain_speed = over_time(gravity_force(p.len_sq()), dt);
        lemma_gain_speed_bounds(p.len_sq(), dt);
        assert(p.reversed().len_sq() == p.len_sq()) by (nonlinear_arith)
            requires
                p.reversed().x == -p.x,
                p.reversed().y == -p.y,
        ;
        assert(p.len_sq() > 0) by (nonlinear_arith)
            requires
                p.len_sq() >= MIN_GRAVITY_RADIUS * MIN_GRAVITY_RADIUS,
        ;
        lemma_with_len_bounds(p.reversed(), gain_speed);
        let gain = gravity_gain(p, dt);
        lemma_component_within(r.velocity.x as int, r.velocity.y as int, r.max_speed as int);
        let sum = Vec2 { x: (r.velocity.x + gain.x) as i64, y: (r.velocity.y + gain.y) as i64 };
        if sum.len_sq() > r.max_speed * r.max_speed {
            assert(sum.len_sq() > 0) by (nonlinear_arith)
                requires
                    sum.len_sq() > r.max_speed * r.max_speed,
            ;
            lemma_with_len_bounds(sum, r.max_speed as int);
        }
    }
}

/// Gravity brings a rocket that stands still closer to the sun, never past
/// it. Over a frame of at most forty milliseconds, a rocket without velocity
/// ends the frame with each coordinate between the sun and where it was, so
/// no farther from the sun than before; and if it has moved at all, it is
/// closer.
pub proof fn lemma_pull_brings_closer(r: Rocket, dt: u64)
    requires
        r.wf(),
        r.velocity == (Vec2 { x: 0, y: 0 }),
        dt <= 40_000_000,
    ensures
        toward_zero(r.position.x as int, r.pulled(dt).position.x as int),
        toward_zero(r.position.y as int, r.pulled(dt).position.y as int),
        r.pulled(dt).position.len_sq() <= r.position.len_sq(),
        r.pulled(dt).position != r.position ==> r.pulled(dt).position.len_sq()
            < r.position.len_sq(),
{
    let p = r.position;
    if !in_dead_zone(p) {
        let n = p.len_sq();
        lemma_pulled_wf(r, dt);
        lemma_gain_speed_bounds(n, dt);
        lemma_gravity_force_bounds(n);
        lemma_over_time_magnitude(gravity_force(n), 30_000_000_000, dt);
        let g = over_time(gravity_force(n), dt);
        let step = effective_dt(dt);
        assert(g <= 1_200_000_000);
        assert(n > 0) by (nonlinear_arith)
            requires
                n >= MIN_GRAVITY_RADIUS * MIN_GRAVITY_RADIUS,
        ;
        lemma_floor_sqrt_exists(n);
        lemma_ceil_sqrt_bounds(n, floor_sqrt(n));
        let c = ceil_sqrt(n);
        assert(c >= 65_000_000) by (nonlinear_arith)
            requires
                c >= 0,
                c * c >= n,
                n >= MIN_GRAVITY_RADIUS * MIN_GRAVITY_RADIUS,
                MIN_GRAVITY_RADIUS == 65_000_000,
        ;
        assert(g * step <= c * 1_000_000_000) by (nonlinear_arith)
            requires
                0 <= g <= 1_200_000_000,
                0 < step <= 40_000_000,
                c >= 65_000_000,
        ;
        assert(p.reversed().len_sq() == n) by (nonlinear_arith)
            requires
                p.reversed().x == -p.x,
                p.reversed().y == -p.y,
                n == p.x * p.x + p.y * p.y,
        ;
        lemma_with_len_bounds(p.reversed(), g);
        let gain = gravity_gain(p, dt);
        lemma_component_within(-p.x, -p.y, c);
        lemma_mul_div_within(-p.x, g, c);
        lemma_mul_div_within(-p.y, g, c);
        assert(gain.x == mul_div(-p.x, g, c));
        assert(gain.y == mul_div(-p.y, g, c));
        let v = r.pulled(dt).velocity;
        assert(v == capped(gain, r.max_speed as int));
        lemma_capped_axis(gain, r.max_speed as int);
        lemma_axis_pulled_in(p.x as int, gain.x as int, v.x as int, g, c, step);
        lemma_axis_pulled_in(p.y as int, gain.y as int, v.y as int, g, c, step);
        let q = r.pulled(dt).position;
        assert(q.x * q.x <= p.x * p.x && (q.x != p.x ==> q.x * q.x < p.x * p.x))
            by (nonlinear_arith)
            requires
                toward_zero(p.x as int, q.x as int),
        ;
        assert(q.y * q.y <= p.y * p.y && (q.y != p.y ==> q.y * q.y < p.y * p.y))
            by (nonlinear_arith)
            requires
                toward_zero(p.y as int, q.y as int),
        ;
    } else {
        lemma_pulled_wf(r, dt);
    }
}

/// A rocket without thrust, at rest but for gravity, drifts toward the sun.
/// One tick is a frame of flight followed by a frame of gravity. If the rocket
/// has no forward speed and the thrust key is up, then over a tick of at most
/// forty milliseconds, whatever the heading and the turn keys, it keeps no
/// forward speed, each coordinate ends between the sun and where it was, the
/// rocket is no farther from the sun than before and closer if it has moved
/// at all, and its velocity is no longer than `max_speed`.
pub proof fn lemma_drift_toward_sun(r: Rocket, input: RocketInput, heading: Vec2, dt: u64)
    requires
        r.wf(),
        r.speed == 0,
        !input.accelerate,
        dt <= 40_000_000,
    ensures
        r.moved(input, heading, dt).position == r.position,
        r.moved(input, heading, dt).pulled(dt).wf(),
        r.moved(input, heading, dt).pulled(dt).speed == 0,
        toward_zero(r.position.x as int, r.moved(input, heading, dt).pulled(dt).position.x as int),
        toward_zero(r.position.y as int, r.moved(input, heading, dt).pulled(dt).position.y as int),
        r.moved(input, heading, dt).pulled(dt).position.len_sq() <= r.position.len_sq(),
        r.moved(input, heading, dt).pulled(dt).position != r.position ==> r.moved(
            input,
            heading,
            dt,
        ).pulled(dt).position.len_sq() < r.position.len_sq(),
        r.moved(input, heading, dt).pulled(dt).velocity.len_sq() <= r.max_speed * r.max_speed,
        on_wide_field(r) && dt >= 1_000_000 ==> r.moved(input, heading, dt).pulled(
            dt,
        ).position.len_sq() < r.position.len_sq(),
{
    let flown = r.moved(input, heading, dt);
    lemma_moved_wf(r, input, heading, dt);
    lemma_speed_decays(0, r.max_speed as int, dt);
    assert(flown.speed == 0);
    assert(flown.speed * flown.speed == 0) by (nonlinear_arith)
        requires
            flown.speed == 0,
    ;
    assert(flown.velocity.len_sq() <= 0);
    assert(flown.velocity.x == 0 && flown.velocity.y == 0) by (nonlinear_arith)
        requires
            flown.velocity.x * flown.velocity.x + flown.velocity.y * flown.velocity.y <= 0,
    ;
    lemma_trunc_div_exact(0, NANOS_PER_SEC as int);
    assert(0 * effective_dt(dt) == 0);
    assert(over_time(0, dt) == 0);
    assert(flown.position == r.position);
    lemma_pulled_wf(flown, dt);
    lemma_pull_brings_closer(flown, dt);
    if on_wide_field(r) && dt >= 1_000_000 {
        lemma_pull_moves_on_playfield(flown, dt);
    }
}

/// Left alone, a rocket falls toward the sun and never away from it. Over any
/// run of ticks without thrust, each of at most forty milliseconds, a rocket
/// that starts without forward speed is, after every tick, no farther from
/// the sun than after the tick before, with each coordinate between the sun
/// and where it was; and its velocity never is longer than `max_speed`. Where
/// the rocket starts within a thousand units of the sun on either axis with a
/// speed cap of a unit per second or more, every tick of a millisecond or
/// more that begins outside the dead zone ends strictly closer to the sun.
pub proof fn lemma_drift_never_recedes(r: Rocket, ticks: Seq<Frame>)
    requires
        r.wf(),
        r.speed == 0,
        drifting(ticks),
    ensures
        after_ticks(r, ticks).wf(),
        after_ticks(r, ticks).speed == 0,
        after_ticks(r, ticks).velocity.len_sq() <= r.max_speed * r.max_speed,
        after_ticks(r, ticks).max_speed == r.max_speed,
        toward_zero(r.position.x as int, after_ticks(r, ticks).position.x as int),
        toward_zero(r.position.y as int, after_ticks(r, ticks).position.y as int),
        after_ticks(r, ticks).position.len_sq() <= r.position.len_sq(),
        ticks.len() > 0 ==> after_ticks(r, ticks).position.len_sq() <= after_ticks(
            r,
            ticks.drop_last(),
        ).position.len_sq(),
        ticks.len() > 0 && after_ticks(r, ticks).position != after_ticks(
            r,
            ticks.drop_last(),
        ).position ==> after_ticks(r, ticks).position.len_sq() < after_ticks(
            r,
            ticks.drop_last(),
        ).position.len_sq(),
        ticks.len() > 0 && ticks.last().dt >= 1_000_000 && on_wide_field(r) && !in_dead_zone(
            after_ticks(r, ticks.drop_last()).position,
        ) ==> after_ticks(r, ticks).position.len_sq() < after_ticks(
            r,
            ticks.drop_last(),
        ).position.len_sq(),
    decreases ticks.len(),
{
    if ticks.len() > 0 {
        let earlier = ticks.drop_last();
        let last = ticks.last();
        assert(drifting(earlier));
        lemma_drift_never_recedes(r, earlier);
        lemma_drift_toward_sun(after_ticks(r, earlier), last.input, last.heading, last.dt);
    } else {
        assert(0 <= r.speed * r.speed);
    }
}

/// On and around the playfield gravity is never too weak to move a rocket
/// that stands still. Within a thousand units of the sun on either axis and
/// outside the dead zone, over a frame of one to forty milliseconds, a rocket
/// without velocity whose speed cap is one unit per second or more ends the
/// frame strictly closer to the sun.
pub proof fn lemma_pull_moves_on_playfield(r: Rocket, dt: u64)
    requires
        r.wf(),
        r.velocity == (Vec2 { x: 0, y: 0 }),
        on_wide_field(r),
        1_000_000 <= dt <= 40_000_000,
    ensures
        r.pulled(dt).position != r.position,
        r.pulled(dt).position.len_sq() < r.position.len_sq(),
{
    let p = r.position;
    let n = p.len_sq();
    let x = p.x as int;
    let y = p.y as int;
    let max = r.max_speed as int;
    lemma_pulled_wf(r, dt);
    lemma_pull_brings_closer(r, dt);
    lemma_gain_speed_bounds(n, dt);
    let g = over_time(gravity_force(n), dt);
    let step = effective_dt(dt);
    assert(n <= 2_000_000_000_000_000_000 && n >= 4_225_000_000_000_000) by (nonlinear_arith)
        requires
            n == x * x + y * y,
            -1_000_000_000 <= x <= 1_000_000_000,
            -1_000_000_000 <= y <= 1_000_000_000,
            n >= MIN_GRAVITY_RADIUS * MIN_GRAVITY_RADIUS,
            MIN_GRAVITY_RADIUS == 65_000_000,
    ;
    let f = gravity_force(n);
    assert(f >= 62_500_000) by (nonlinear_arith)
        requires
            0 < n <= 2_000_000_000_000_000_000,
            f == 125_000_000_000_000_000_000_000_000int / n,
    ;
    assert(f * step >= 62_500int * 1_000_000_000int) by (nonlinear_arith)
        requires
            f >= 62_500_000,
            step >= 1_000_000,
    ;
    lemma_trunc_div_monotonic(
        62_500int * 1_000_000_000int,
        f * step,
        NANOS_PER_SEC as int,
    );
    lemma_trunc_div_exact(62_500, NANOS_PER_SEC as int);
    assert(g >= 62_500);
    lemma_floor_sqrt_exists(n);
    lemma_ceil_sqrt_bounds(n, floor_sqrt(n));
    let c = ceil_sqrt(n);
    assert(p.reversed().len_sq() == n) by (nonlinear_arith)
        requires
            p.reversed().x == -p.x,
            p.reversed().y == -p.y,
            n == p.x * p.x + p.y * p.y,
    ;
    lemma_with_len_bounds(p.reversed(), g);
    let gain = gravity_gain(p, dt);
    lemma_component_within(-x, -y, c);
    lemma_mul_div_within(-x, g, c);
    lemma_mul_div_within(-y, g, c);
    assert(gain.x == mul_div(-x, g, c));
    assert(gain.y == mul_div(-y, g, c));
    let v = r.pulled(dt).velocity;
    assert(v == capped(gain, max));
    let q = r.pulled(dt).position;
    assert(q.x == clamp_coord(x + over_time(v.x as int, dt)));
    assert(q.y == clamp_coord(y + over_time(v.y as int, dt)));
    if magnitude(x) >= magnitude(y) {
        lemma_dominant_axis_moves(-x, -y, g, c, gain.x as int, gain.y as int);
        lemma_capped_dominant(gain, v, max, true);
        lemma_travel_moves(v.x as int, dt);
    } else {
        assert(n == (-y) * (-y) + (-x) * (-x)) by (nonlinear_arith)
            requires
                n == x * x + y * y,
        ;
        lemma_dominant_axis_moves(-y, -x, g, c, gain.y as int, gain.x as int);
        lemma_capped_dominant(gain, v, max, false);
        lemma_travel_moves(v.y as int, dt);
    }
}

/// A speed of a thousand steps or more moves a point over a millisecond.
proof fn lemma_travel_moves(v: int, dt: u64)
    requires
        magnitude(v) >= 1_000,
        dt >= 1_000_000,
    ensures
        over_time(v, dt) != 0,
{
    let step = effective_dt(dt);
    let p = v * step;
    assert(magnitude(p) >= 1_000_000_000 && (v >= 0 ==> p >= 0) && (v <= 0 ==> p <= 0))
        by (nonlinear_arith)
        requires
            magnitude(v) >= 1_000,
            step >= 1_000_000,
            p == v * step,
    ;
    lemma_trunc_div_exact(1, NANOS_PER_SEC as int);
    lemma_trunc_div_exact(-1, NANOS_PER_SEC as int);
    if p >= 0 {
        lemma_trunc_div_monotonic(1int * 1_000_000_000int, p, NANOS_PER_SEC as int);
    } else {
        lemma_trunc_div_monotonic(p, (-1int) * 1_000_000_000int, NANOS_PER_SEC as int);
    }
}

/// A vector scaled to a length keeps at least half of it, less a step, along
/// its longer axis, and that axis stays the longer one.
proof fn lemma_longer_axis_keeps_half(a: int, b: int, num: int, c: int)
    requires
        magnitude(a) >= magnitude(b),
        magnitude(a) >= 2,
        num >= 0,
        c > 0,
        (c - 1) * (c - 1) < a * a + b * b,
    ensures
        2 * magnitude(mul_div(a, num, c)) + 2 > num,
        magnitude(mul_div(a, num, c)) >= magnitude(mul_div(b, num, c)),
{
    let ma = magnitude(a);
    let mb = magnitude(b);
    assert(ma * ma == a * a && mb * mb == b * b) by (nonlinear_arith)
        requires
            ma == a || ma == -a,
            mb == b || mb == -b,
    ;
    assert(c <= 2 * ma) by (nonlinear_arith)
        requires
            ma >= mb,
            mb >= 0,
            ma >= 2,
            c > 0,
            (c - 1) * (c - 1) < ma * ma + mb * mb,
    ;
    let ta = mul_div(a, num, c);
    let tb = mul_div(b, num, c);
    lemma_trunc_div_bounds(a * num, c);
    lemma_trunc_div_bounds(b * num, c);
    let mta = magnitude(ta);
    let mtb = magnitude(tb);
    assert((mta + 1) * c > ma * num && mtb * c <= mb * num) by (nonlinear_arith)
        requires
            c > 0,
            num >= 0,
            ma == magnitude(a),
            mb == magnitude(b),
            mta == magnitude(ta),
            mtb == magnitude(tb),
            a * num >= 0 ==> 0 <= ta && ta * c <= a * num < (ta + 1) * c,
            a * num <= 0 ==> ta <= 0 && (ta - 1) * c < a * num <= ta * c,
            b * num >= 0 ==> 0 <= tb && tb * c <= b * num < (tb + 1) * c,
            b * num <= 0 ==> tb <= 0 && (tb - 1) * c < b * num <= tb * c,
    ;
    assert(2 * mta + 2 > num && mta >= mtb) by (nonlinear_arith)
        requires
            c > 0,
            num >= 0,
            c <= 2 * ma,
            ma >= mb,
            mb >= 0,
            mta >= 0,
            mtb >= 0,
            (mta + 1) * c > ma * num,
            mtb * c <= mb * num,
    ;
}

/// Along the axis on which the rocket is farther from the sun, the speed
/// gravity adds is at least half of the whole gain, less a step.
proof fn lemma_dominant_axis_moves(a: int, b: int, g: int, c: int, ga: int, gb: int)
    requires
        magnitude(a) >= magnitude(b),
        a * a + b * b >= 4_225_000_000_000_000,
        c > 0,
        (c - 1) * (c - 1) < a * a + b * b,
        g >= 62_500,
        ga == mul_div(a, g, c),
        gb == mul_div(b, g, c),
    ensures
        magnitude(ga) >= 31_249,
        magnitude(ga) >= magnitude(gb),
{
    let ma = magnitude(a);
    let mb = magnitude(b);
    assert(ma * ma == a * a && mb * mb == b * b) by (nonlinear_arith)
        requires
            ma == a || ma == -a,
            mb == b || mb == -b,
    ;
    assert(ma >= 2) by (nonlinear_arith)
        requires
            ma >= mb,
            mb >= 0,
            ma * ma + mb * mb >= 4_225_000_000_000_000,
    ;
    lemma_longer_axis_keeps_half(a, b, g, c);
}

/// Cut back or not, a velocity of thirty thousand steps or more along its
/// longer axis keeps a thousand steps along it under a speed cap of a unit.
proof fn lemma_capped_dominant(gain: Vec2, v: Vec2, max: int, x_longer: bool)
    requires
        x_longer ==> magnitude(gain.x as int) >= 31_249 && magnitude(gain.x as int) >= magnitude(
            gain.y as int,
        ),
        !x_longer ==> magnitude(gain.y as int) >= 31_249 && magnitude(gain.y as int) >= magnitude(
            gain.x as int,
        ),
        1_000_000 <= max <= i64::MAX,
        v == capped(gain, max),
    ensures
        x_longer ==> magnitude(v.x as int) >= 1_000,
        !x_longer ==> magnitude(v.y as int) >= 1_000,
{
    let n = gain.len_sq();
    if n > max * max {
        assert(n > 0) by (nonlinear_arith)
            requires
                n > max * max,
        ;
        lemma_floor_sqrt_exists(n);
        lemma_ceil_sqrt_bounds(n, floor_sqrt(n));
        let c = ceil_sqrt(n);
        lemma_with_len_bounds(gain, max);
        lemma_component_within(gain.x as int, gain.y as int, c);
        lemma_mul_div_within(gain.x as int, max, c);
        lemma_mul_div_within(gain.y as int, max, c);
        assert(v.x == mul_div(gain.x as int, max, c));
        assert(v.y == mul_div(gain.y as int, max, c));
        if x_longer {
            lemma_longer_axis_keeps_half(gain.x as int, gain.y as int, max, c);
        } else {
            assert(n == gain.y * gain.y + gain.x * gain.x);
            lemma_longer_axis_keeps_half(gain.y as int, gain.x as int, max, c);
        }
    }
}

/// Cutting a velocity back keeps the sign of each component and lengthens
/// neither.
proof fn lemma_capped_axis(v: Vec2, max_speed: int)
    requires
        0 <= max_speed <= i64::MAX,
    ensures
        toward_zero(v.x as int, capped(v, max_speed).x as int),
        toward_zero(v.y as int, capped(v, max_speed).y as int),
{
    let n = v.len_sq();
    if n > max_speed * max_speed {
        assert(n > 0) by (nonlinear_arith)
            requires
                n > max_speed * max_speed,
        ;
        lemma_floor_sqrt_exists(n);
        lemma_ceil_sqrt_bounds(n, floor_sqrt(n));
        let c = ceil_sqrt(n);
        assert(c >= max_speed) by (nonlinear_arith)
            requires
                c >= 0,
                max_speed >= 0,
                c * c >= n,
                n > max_speed * max_speed,
        ;
        lemma_with_len_bounds(v, max_speed);
        lemma_mul_div_sign(v.x as int, max_speed, c);
        lemma_mul_div_sign(v.y as int, max_speed, c);
        lemma_component_within(v.x as int, v.y as int, c);
        lemma_mul_div_within(v.x as int, max_speed, c);
        lemma_mul_div_within(v.y as int, max_speed, c);
        let tx = mul_div(v.x as int, max_speed, c);
        let ty = mul_div(v.y as int, max_speed, c);
        assert(magnitude(tx) <= magnitude(v.x as int)) by (nonlinear_arith)
            requires
                c > 0,
                0 <= max_speed <= c,
                magnitude(tx) * c <= magnitude(v.x as int) * max_speed,
                magnitude(tx) >= 0,
                magnitude(v.x as int) >= 0,
        ;
        assert(magnitude(ty) <= magnitude(v.y as int)) by (nonlinear_arith)
            requires
                c > 0,
                0 <= max_speed <= c,
                magnitude(ty) * c <= magnitude(v.y as int) * max_speed,
                magnitude(ty) >= 0,
                magnitude(v.y as int) >= 0,
        ;
    }
}

/// Along one axis: the speed gained points at the sun, and over a frame that
/// is short for the distance the rocket does not travel past it.
proof fn lemma_axis_pulled_in(x: int, gain: int, v: int, g: int, c: int, step: int)
    requires
        c > 0,
        g >= 0,
        0 < step,
        g * step <= c * 1_000_000_000,
        gain == mul_div(-x, g, c),
        toward_zero(gain, v),
    ensures
        toward_zero(x, x + mul_div(v, step, NANOS_PER_SEC as int)),
{
    lemma_mul_div_sign(-x, g, c);
    lemma_mul_div_sign(v, step, NANOS_PER_SEC as int);
    let t = mul_div(v, step, NANOS_PER_SEC as int);
    let a = magnitude(x);
    let gm = magnitude(gain);
    let vm = magnitude(v);
    let tm = magnitude(t);
    assert(tm <= a) by (nonlinear_arith)
        requires
            c > 0,
            g >= 0,
            step > 0,
            a >= 0,
            gm >= 0,
            vm >= 0,
            tm >= 0,
            g * step <= c * 1_000_000_000,
            gm * c <= a * g,
            vm <= gm,
            tm * 1_000_000_000 <= vm * step,
    ;
}

} // verus!
