//! Rockets, their starting line-up, and the edges of the playfield.

use vstd::prelude::*;
use crate::flight::MAX_ROTATION_SPEED;
pub use crate::input::RocketControls;
use crate::input::{KEY_A, KEY_D, KEY_I, KEY_J, KEY_K, KEY_L, KEY_S, KEY_W};
use crate::units::{COORD_MAX, ONE, SPEED_MAX};
use crate::vec2::Vec2;

verus! {

/// Half the width of the playfield.
pub const W_CLIP: i64 = 510_000_000;

/// Half the height of the playfield.
pub const H_CLIP: i64 = 380_000_000;

/// The rockets start at `(-SPAWN_X, SPAWN_Y)` and `(SPAWN_X, -SPAWN_Y)`,
/// mirrored through the sun.
pub const SPAWN_X: i64 = 400_000_000;

/// The second coordinate of the starting positions.
pub const SPAWN_Y: i64 = 200_000_000;

/// The speed cap both rockets start with.
pub const ROCKET_MAX_SPEED: i64 = 150_000_000;

/// The collision radius both rockets start with.
pub const ROCKET_RADIUS: i64 = 50_000_000;

/// One player's rocket.
#[derive(Clone, Copy, Debug, PartialEq, Eq, Structural)]
pub struct Rocket {
    /// The host's name for the rocket; projectiles carry it as their owner.
    pub id: u64,
    pub position: Vec2,
    /// The orientation, kept as the point of the unit circle the nose points
    /// at.
    pub heading: Vec2,
    /// Forward thrust speed, from zero to `max_speed`.
    pub speed: i64,
    pub max_speed: i64,
    /// Thrust and gravity together; never longer than `max_speed`.
    pub velocity: Vec2,
    /// Angular velocity, counter-clockwise positive.
    pub rotation_speed: i64,
    pub radius_collision: i64,
    pub controls: RocketControls,
    /// The least time between two shots, in nanoseconds.
    pub cooldown: u64,
    /// The clock reading at the latest shot.
    pub last_shot_time: u64,
}

/// A coordinate mirrored through the origin once it lies beyond `clip`.
pub open spec fn wrap_axis(c: int, clip: int) -> int {
    if c < -clip || c > clip {
        -c
    } else {
        c
    }
}

/// A position with each axis mirrored on its own once it left the playfield.
pub open spec fn wrapped(p: Vec2) -> Vec2 {
    Vec2 {
        x: wrap_axis(p.x as int, W_CLIP as int) as i64,
        y: wrap_axis(p.y as int, H_CLIP as int) as i64,
    }
}

/// The position lies on the playfield, edges included.
pub open spec fn on_playfield(p: Vec2) -> bool {
    -W_CLIP <= p.x <= W_CLIP && -H_CLIP <= p.y <= H_CLIP
}

/// The unit vector from `p` to the sun at the origin.
pub open spec fn toward_sun(p: Vec2) -> Vec2 {
    p.reversed().with_len(ONE as int)
}

/// A rocket can be set up at `position` with this speed cap and this
/// collision radius.
pub open spec fn valid_setup(position: Vec2, max_speed: i64, radius_collision: i64) -> bool {
    &&& position.in_world()
    &&& 0 <= max_speed <= SPEED_MAX
    &&& -COORD_MAX <= radius_collision <= COORD_MAX
}

/// A rocket at rest at `position` that faces the sun and has never fired.
pub open spec fn starting_rocket(
    id: u64,
    position: Vec2,
    max_speed: i64,
    radius_collision: i64,
    controls: RocketControls,
    cooldown: u64,
) -> Rocket {
    Rocket {
        id,
        position,
        heading: toward_sun(position),
        speed: 0,
        max_speed,
        velocity: Vec2 { x: 0, y: 0 },
        rotation_speed: 0,
        radius_collision,
        controls,
        cooldown,
        last_shot_time: 0,
    }
}

/// The keys of the player who starts on the left.
pub open spec fn left_hand_controls() -> RocketControls {
    RocketControls { rotate_left: KEY_A, rotate_right: KEY_D, accelerate: KEY_S, spawn: KEY_W }
}

/// The keys of the player who starts on the right.
pub open spec fn right_hand_controls() -> RocketControls {
    RocketControls { rotate_left: KEY_J, rotate_right: KEY_L, accelerate: KEY_K, spawn: KEY_I }
}

/// Every rocket of the sequence is well-formed.
pub open spec fn all_wf(rockets: Seq<Rocket>) -> bool {
    forall|i: int| 0 <= i < rockets.len() ==> (#[trigger] rockets[i]).wf()
}

impl Rocket {
    /// What every rocket in play satisfies: it is in the world, its
    /// orientation is at most one unit long, and its speeds respect their
    /// caps.
    pub open spec fn wf(self) -> bool {
        &&& self.position.in_world()
        &&& self.heading.is_direction()
        &&& 0 <= self.max_speed <= SPEED_MAX
        &&& 0 <= self.speed <= self.max_speed
        &&& self.velocity.len_sq() <= self.max_speed * self.max_speed
        &&& -MAX_ROTATION_SPEED <= self.rotation_speed <= MAX_ROTATION_SPEED
        &&& -COORD_MAX <= self.radius_collision <= COORD_MAX
    }

    /// The rocket with its position wrapped and nothing else changed.
    pub open spec fn clipped(self) -> Rocket {
        Rocket { position: wrapped(self.position), ..self }
    }

    /// A rocket at rest at `position`, facing the sun, that has never fired;
    /// `None` if the position lies outside the world, the speed cap is
    /// negative or above `SPEED_MAX`, or the radius is beyond `COORD_MAX`
    /// either way.
    pub fn new(
        id: u64,
        position: Vec2,
        max_speed: i64,
        radius_collision: i64,
        controls: RocketControls,
        cooldown: u64,
    ) -> (made: Option<Rocket>)
        ensures
            made == (if valid_setup(position, max_speed, radius_collision) {
                Some(
                    starting_rocket(id, position, max_speed, radius_collision, controls, cooldown),
                )
            } else {
                None
            }),
            made matches Some(r) ==> r.wf(),
    {
        if position.is_in_world() && 0 <= max_speed && max_speed <= SPEED_MAX && -COORD_MAX
            <= radius_collision && radius_collision <= COORD_MAX {
            Some(at_rest(id, position, max_speed, radius_collision, controls, cooldown))
        } else {
            None
        }
    }

    /// Whether the rocket is well-formed.
    pub fn is_valid(&self) -> (b: bool)
        ensures
            b == self.wf(),
    {
        if !(0 <= self.max_speed && self.max_speed <= SPEED_MAX) {
            return false;
        }
        assert(self.max_speed * self.max_speed <= SPEED_MAX * SPEED_MAX) by (nonlinear_arith)
            requires
                0 <= self.max_speed <= SPEED_MAX,
        ;
        assert(SPEED_MAX * SPEED_MAX == 1_000_000_000_000_000_000_000_000) by (nonlinear_arith);
        let cap: u128 = (self.max_speed as u128) * (self.max_speed as u128);
        self.position.is_in_world() && self.heading.is_unit_or_shorter() && 0 <= self.speed
            && self.speed <= self.max_speed && self.velocity.length_squared() <= cap
            && -MAX_ROTATION_SPEED <= self.rotation_speed && self.rotation_speed
            <= MAX_ROTATION_SPEED && -COORD_MAX <= self.radius_collision && self.radius_collision
            <= COORD_MAX
    }
}

/// Mirrors each axis of a position that left the playfield: beyond `W_CLIP`
/// the `x` coordinate changes sign, beyond `H_CLIP` the `y` coordinate does.
/// A position on the playfield is returned as it is.
pub fn wrap_position(p: Vec2) -> (r: Vec2)
    requires
        p.x > i64::MIN,
        p.y > i64::MIN,
    ensures
        r == wrapped(p),
        p.x < -W_CLIP || p.x > W_CLIP ==> r.x == -p.x,
        -W_CLIP <= p.x <= W_CLIP ==> r.x == p.x,
        p.y < -H_CLIP || p.y > H_CLIP ==> r.y == -p.y,
        -H_CLIP <= p.y <= H_CLIP ==> r.y == p.y,
        on_playfield(p) ==> r == p,
        p.in_world() ==> r.in_world(),
        r.len_sq() == p.len_sq(),
{
    let x: i64 = if p.x < -W_CLIP || p.x > W_CLIP {
        -p.x
    } else {
        p.x
    };
    let y: i64 = if p.y < -H_CLIP || p.y > H_CLIP {
        -p.y
    } else {
        p.y
    };
    assert((-p.x) * (-p.x) == p.x * p.x && (-p.y) * (-p.y) == p.y * p.y) by (nonlinear_arith);
    Vec2 { x, y }
}

/// Wraps every rocket at the edges of the playfield. Both axes are looked at
/// for every rocket; nothing but the position changes, and a rocket on the
/// playfield does not change at all.
pub fn clip_rockets(rockets: &mut Vec<Rocket>)
    requires
        all_wf(old(rockets)@),
    ensures
        final(rockets)@.len() == old(rockets)@.len(),
        forall|i: int|
            0 <= i < old(rockets)@.len() ==> final(rockets)@[i] == (#[trigger] old(
                rockets,
            )@[i]).clipped(),
        forall|i: int|
            0 <= i < old(rockets)@.len() && on_playfield((#[trigger] old(rockets)@[i]).position)
                ==> final(rockets)@[i] == old(rockets)@[i],
        forall|i: int|
            0 <= i < old(rockets)@.len() && ((#[trigger] old(rockets)@[i]).position.x < -W_CLIP
                || old(rockets)@[i].position.x > W_CLIP) ==> final(rockets)@[i].position.x == -old(
                rockets,
            )@[i].position.x,
        forall|i: int|
            0 <= i < old(rockets)@.len() && ((#[trigger] old(rockets)@[i]).position.y < -H_CLIP
                || old(rockets)@[i].position.y > H_CLIP) ==> final(rockets)@[i].position.y == -old(
                rockets,
            )@[i].position.y,
        all_wf(final(rockets)@),
{
    let mut i: usize = 0;
    while i < rockets.len()
        invariant
            i <= rockets@.len(),
            rockets@.len() == old(rockets)@.len(),
            all_wf(old(rockets)@),
            forall|j: int| 0 <= j < i ==> rockets@[j] == (#[trigger] old(rockets)@[j]).clipped(),
            forall|j: int| i <= j < rockets@.len() ==> rockets@[j] == old(rockets)@[j],
            forall|j: int| 0 <= j < i ==> (#[trigger] rockets@[j]).wf(),
        decreases rockets@.len() - i,
    {
        let mut rocket: Rocket = rockets[i];
        assert(old(rockets)@[i as int].wf());
        rocket.position = wrap_position(rocket.position);
        rockets.set(i, rocket);
        i += 1;
    }
}

/// The two rockets a match starts with: mirrored through the sun, at rest,
/// each facing the sun, with bindings that share no key.
pub fn add_rockets() -> (rockets: Vec<Rocket>)
    ensures
        rockets@.len() == 2,
        rockets@[0] == starting_rocket(
            0,
            Vec2 { x: (-SPAWN_X) as i64, y: SPAWN_Y },
            ROCKET_MAX_SPEED,
            ROCKET_RADIUS,
            left_hand_controls(),
            500_000_000,
        ),
        rockets@[1] == starting_rocket(
            1,
            Vec2 { x: SPAWN_X, y: (-SPAWN_Y) as i64 },
            ROCKET_MAX_SPEED,
            ROCKET_RADIUS,
            right_hand_controls(),
            300_000_000,
        ),
        all_wf(rockets@),
        !rockets@[0].controls.shares_key_with(rockets@[1].controls),
{
    let left = RocketControls {
        rotate_left: KEY_A,
        rotate_right: KEY_D,
        accelerate: KEY_S,
        spawn: KEY_W,
    };
    let right = RocketControls {
        rotate_left: KEY_J,
        rotate_right: KEY_L,
        accelerate: KEY_K,
        spawn: KEY_I,
    };
    assert(!left.shares_key_with(right));
    let mut rockets: Vec<Rocket> = Vec::new();
    rockets.push(
        at_rest(
            0,
            Vec2 { x: -SPAWN_X, y: SPAWN_Y },
            ROCKET_MAX_SPEED,
            ROCKET_RADIUS,
            left,
            500_000_000,
        ),
    );
    rockets.push(
        at_rest(
            1,
            Vec2 { x: SPAWN_X, y: -SPAWN_Y },
            ROCKET_MAX_SPEED,
            ROCKET_RADIUS,
            right,
            300_000_000,
        ),
    );
    rockets
}

fn at_rest(
    id: u64,
    position: Vec2,
    max_speed: i64,
    radius_collision: i64,
    controls: RocketControls,
    cooldown: u64,
) -> (r: Rocket)
    requires
        valid_setup(position, max_speed, radius_collision),
    ensures
        r == starting_rocket(id, position, max_speed, radius_collision, controls, cooldown),
        r.wf(),
{
    let heading = position.reverse().with_length(ONE);
    assert(0 <= max_speed * max_speed) by (nonlinear_arith);
    Rocket {
        id,
        position,
        heading,
        speed: 0,
        max_speed,
        velocity: Vec2 { x: 0, y: 0 },
        rotation_speed: 0,
        radius_collision,
        controls,
        cooldown,
        last_shot_time: 0,
    }
}

} // verus!
