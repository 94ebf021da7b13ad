//! Projectiles: the trigger and its cooldown, flight, and hits on rockets.

use vstd::prelude::*;
use crate::collision::closer_than;
use crate::input::{InputSnapshot, RocketInput};
use crate::rocket::{all_wf, Rocket, H_CLIP};
use crate::units::{ONE, SPEED_MAX};
use crate::vec2::{lemma_component_within, square, Vec2};

verus! {

/// A projectile appears this far ahead of the rocket that fires it.
pub const SPAWN_OFFSET: i64 = 50_000_000;

/// The speed of every projectile, whatever the speed of its rocket.
pub const BULLET_SPEED: i64 = 300_000_000;

/// A projectile closer than this to a rocket's centre hits it.
pub const HIT_RADIUS: i64 = 30_000_000;

/// A projectile is retired once it is this far beyond the top or bottom edge
/// of the playfield.
pub const BULLET_MARGIN: i64 = 130_000_000;

/// A projectile in flight. Only its position ever changes.
#[derive(Clone, Copy, Debug, PartialEq, Eq, Structural)]
pub struct Bullet {
    pub position: Vec2,
    /// The orientation of the rocket at the moment it fired.
    pub heading: Vec2,
    pub speed: i64,
    /// The `id` of the rocket that fired.
    pub owner: u64,
}

/// What the collision test between rockets and projectiles decides: one flag
/// per rocket and one per projectile, in the order they were given.
#[derive(Debug)]
pub struct BulletHits {
    /// The rockets that were hit and are eliminated.
    pub rockets: Vec<bool>,
    /// The projectiles that hit a rocket and are removed.
    pub bullets: Vec<bool>,
}

/// Every projectile of the sequence is well-formed.
pub open spec fn all_bullets_wf(bullets: Seq<Bullet>) -> bool {
    forall|i: int| 0 <= i < bullets.len() ==> (#[trigger] bullets[i]).wf()
}

/// The projectile hits the rocket: another rocket fired it, and it is closer
/// than `HIT_RADIUS` to the rocket's centre.
pub open spec fn bullet_hits(r: Rocket, b: Bullet) -> bool {
    b.owner != r.id && closer_than(r.position.dist_sq(b.position), HIT_RADIUS as int)
}

/// Some projectile hits the rocket.
pub open spec fn rocket_is_hit(r: Rocket, bullets: Seq<Bullet>) -> bool {
    exists|j: int| 0 <= j < bullets.len() && bullet_hits(r, #[trigger] bullets[j])
}

/// The projectile hits some rocket.
pub open spec fn bullet_is_spent(b: Bullet, rockets: Seq<Rocket>) -> bool {
    exists|i: int| 0 <= i < rockets.len() && bullet_hits(#[trigger] rockets[i], b)
}

/// The projectiles that the rockets fire in this frame, in the order of the
/// rockets.
pub open spec fn spawned(rockets: Seq<Rocket>, keys: &InputSnapshot, now: u64) -> Seq<Bullet>
    decreases rockets.len(),
{
    if rockets.len() == 0 {
        Seq::empty()
    } else {
        let earlier = spawned(rockets.drop_last(), keys, now);
        let r = rockets.last();
        if r.fires(r.controls.resolved(keys), now) {
            earlier.push(r.bullet())
        } else {
            earlier
        }
    }
}

impl Bullet {
    /// What every projectile in flight satisfies.
    pub open spec fn wf(self) -> bool {
        &&& self.position.in_world()
        &&& self.heading.is_direction()
        &&& 0 <= self.speed <= SPEED_MAX
    }

    /// The velocity of the projectile: its speed along its heading, the
    /// heading taken at one unit of length.
    pub open spec fn velocity(self) -> Vec2 {
        self.heading.as_direction().scaled(self.speed as int, ONE as int)
    }

    /// The projectile after one frame: moved by its velocity over the frame.
    pub open spec fn advanced(self, dt: u64) -> Bullet {
        Bullet { position: self.position.travelled(self.velocity(), dt), ..self }
    }

    /// Whether the projectile is well-formed.
    pub fn is_valid(&self) -> (b: bool)
        ensures
            b == self.wf(),
    {
        self.position.is_in_world() && self.heading.is_unit_or_shorter() && 0 <= self.speed
            && self.speed <= SPEED_MAX
    }

    /// The projectile has left the playfield and its margin, above or below.
    pub open spec fn off_screen(self) -> bool {
        self.position.y < -(H_CLIP + BULLET_MARGIN) || self.position.y > H_CLIP + BULLET_MARGIN
    }
}

impl Rocket {
    /// The cooldown since the latest shot has run out. A clock that reads
    /// less than it did at that shot has not run it out.
    pub open spec fn can_fire(self, now: u64) -> bool {
        now >= self.last_shot_time && now - self.last_shot_time >= self.cooldown
    }

    /// The rocket fires in this frame: the fire key went down and the cooldown
    /// has run out.
    pub open spec fn fires(self, input: RocketInput, now: u64) -> bool {
        input.fire && self.can_fire(now)
    }

    /// Where a projectile appears: `SPAWN_OFFSET` ahead of the rocket, along
    /// its heading taken at one unit of length.
    pub open spec fn muzzle(self) -> Vec2 {
        self.position.plus(self.heading.as_direction().scaled(SPAWN_OFFSET as int, ONE as int))
    }

    /// The projectile that the rocket fires.
    pub open spec fn bullet(self) -> Bullet {
        Bullet {
            position: self.muzzle(),
            heading: self.heading,
            speed: BULLET_SPEED,
            owner: self.id,
        }
    }

    /// The rocket after the trigger was looked at: a shot restarts the
    /// cooldown, and nothing else ever changes.
    pub open spec fn after_trigger(self, input: RocketInput, now: u64) -> Rocket {
        if self.fires(input, now) {
            Rocket { last_shot_time: now, ..self }
        } else {
            self
        }
    }
}

/// Looks at one rocket's trigger. The rocket fires if its fire key went down
/// in this frame and its cooldown has run out; the projectile starts
/// `SPAWN_OFFSET` ahead of the rocket with the rocket's orientation, and the
/// cooldown starts again. Otherwise nothing changes.
pub fn fire(now: u64, keys: &InputSnapshot, rocket: &mut Rocket) -> (shot: Option<Bullet>)
    requires
        old(rocket).wf(),
    ensures
        *final(rocket) == old(rocket).after_trigger(old(rocket).controls.resolved(keys), now),
        shot == (if old(rocket).fires(old(rocket).controls.resolved(keys), now) {
            Some(old(rocket).bullet())
        } else {
            None
        }),
        final(rocket).wf(),
        shot matches Some(b) ==> b.wf(),
{
    let input = rocket.controls.resolve(keys);
    if input.fire && now >= rocket.last_shot_time && now - rocket.last_shot_time
        >= rocket.cooldown {
        let forward: Vec2 = rocket.heading.direction();
        proof {
            lemma_component_within(forward.x as int, forward.y as int, ONE as int);
        }
        let offset: Vec2 = forward.scale_by(SPAWN_OFFSET, ONE);
        let shot = Bullet {
            position: rocket.position.plus_clamped(offset),
            heading: rocket.heading,
            speed: BULLET_SPEED,
            owner: rocket.id,
        };
        rocket.last_shot_time = now;
        Some(shot)
    } else {
        None
    }
}

/// Looks at every rocket's trigger and returns the projectiles to create, in
/// the order of the rockets. A rocket that fires has its cooldown started
/// again; nothing else about any rocket changes.
pub fn spawn_bullet(now: u64, keys: &InputSnapshot, rockets: &mut Vec<Rocket>) -> (shots: Vec<Bullet>)
    requires
        all_wf(old(rockets)@),
    ensures
        shots@ == spawned(old(rockets)@, keys, now),
        final(rockets)@.len() == old(rockets)@.len(),
        forall|i: int|
            0 <= i < old(rockets)@.len() ==> final(rockets)@[i] == (#[trigger] old(
                rockets,
            )@[i]).after_trigger(old(rockets)@[i].controls.resolved(keys), now),
        all_wf(final(rockets)@),
        all_bullets_wf(shots@),
{
    let mut shots: Vec<Bullet> = Vec::new();
    let mut i: usize = 0;
    assert(old(rockets)@.take(0) =~= Seq::<Rocket>::empty());
    while i < rockets.len()
        invariant
            i <= rockets@.len(),
            rockets@.len() == old(rockets)@.len(),
            all_wf(old(rockets)@),
            shots@ == spawned(old(rockets)@.take(i as int), keys, now),
            all_bullets_wf(shots@),
            forall|j: int|
                0 <= j < i ==> rockets@[j] == (#[trigger] old(rockets)@[j]).after_trigger(
                    old(rockets)@[j].controls.resolved(keys),
                    now,
                ),
            forall|j: int| i <= j < rockets@.len() ==> rockets@[j] == old(rockets)@[j],
            forall|j: int| 0 <= j < i ==> (#[trigger] rockets@[j]).wf(),
        decreases rockets@.len() - i,
    {
        let mut rocket: Rocket = rockets[i];
        assert(old(rockets)@[i as int].wf());
        proof {
            let upto = old(rockets)@.take(i as int + 1);
            assert(upto.drop_last() =~= old(rockets)@.take(i as int));
            assert(upto.last() == old(rockets)@[i as int]);
        }
        let shot: Option<Bullet> = fire(now, keys, &mut rocket);
        match shot {
            Some(b) => {
                shots.push(b);
            },
            None => {},
        }
        rockets.set(i, rocket);
        i += 1;
    }
    assert(old(rockets)@.take(i as int) =~= old(rockets)@);
    shots
}

/// Moves every projectile through one frame and says which ones to retire.
/// Flag `i` of the result is set when projectile `i`, after its move, is
/// beyond the top or bottom edge of the playfield by more than
/// `BULLET_MARGIN`. Retiring is housekeeping; it hits nothing.
pub fn handle_bullet_movement(dt: u64, bullets: &mut Vec<Bullet>) -> (retired: Vec<bool>)
    requires
        all_bullets_wf(old(bullets)@),
    ensures
        final(bullets)@.len() == old(bullets)@.len(),
        forall|i: int|
            0 <= i < old(bullets)@.len() ==> final(bullets)@[i] == (#[trigger] old(
                bullets,
            )@[i]).advanced(dt),
        retired@.len() == old(bullets)@.len(),
        forall|i: int|
            0 <= i < old(bullets)@.len() ==> retired@[i] == final(bullets)@[i].off_screen(),
        all_bullets_wf(final(bullets)@),
{
    let mut retired: Vec<bool> = Vec::new();
    let mut i: usize = 0;
    while i < bullets.len()
        invariant
            i <= bullets@.len(),
            bullets@.len() == old(bullets)@.len(),
            all_bullets_wf(old(bullets)@),
            retired@.len() == i,
            forall|j: int| 0 <= j < i ==> bullets@[j] == (#[trigger] old(bullets)@[j]).advanced(dt),
            forall|j: int| i <= j < bullets@.len() ==> bullets@[j] == old(bullets)@[j],
            forall|j: int| 0 <= j < i ==> (#[trigger] bullets@[j]).wf(),
            forall|j: int| 0 <= j < i ==> retired@[j] == bullets@[j].off_screen(),
        decreases bullets@.len() - i,
    {
        let mut bullet: Bullet = bullets[i];
        assert(old(bullets)@[i as int].wf());
        let forward: Vec2 = bullet.heading.direction();
        proof {
            lemma_component_within(forward.x as int, forward.y as int, ONE as int);
        }
        let velocity: Vec2 = forward.scale_by(bullet.speed, ONE);
        bullet.position = bullet.position.travel(velocity, dt);
        let gone: bool = bullet.position.y < -(H_CLIP + BULLET_MARGIN) || bullet.position.y
            > H_CLIP + BULLET_MARGIN;
        retired.push(gone);
        bullets.set(i, bullet);
        i += 1;
    }
    retired
}

/// Whether some projectile hits the rocket.
pub fn check_rocket_hit(rocket: &Rocket, bullets: &Vec<Bullet>) -> (hit: bool)
    requires
        rocket.wf(),
        all_bullets_wf(bullets@),
    ensures
        hit == rocket_is_hit(*rocket, bullets@),
{
    let mut j: usize = 0;
    while j < bullets.len()
        invariant
            j <= bullets@.len(),
            rocket.wf(),
            all_bullets_wf(bullets@),
            forall|k: int| 0 <= k < j ==> !bullet_hits(*rocket, #[trigger] bullets@[k]),
        decreases bullets@.len() - j,
    {
        assert(bullets@[j as int].wf());
        if bullets[j].owner != rocket.id && rocket.position.distance_squared(&bullets[j].position)
            < square(HIT_RADIUS) {
            return true;
        }
        j += 1;
    }
    false
}

/// Whether the projectile hits some rocket.
pub fn check_bullet_spent(bullet: &Bullet, rockets: &Vec<Rocket>) -> (hit: bool)
    requires
        bullet.wf(),
        all_wf(rockets@),
    ensures
        hit == bullet_is_spent(*bullet, rockets@),
{
    let mut i: usize = 0;
    while i < rockets.len()
        invariant
            i <= rockets@.len(),
            bullet.wf(),
            all_wf(rockets@),
            forall|k: int| 0 <= k < i ==> !bullet_hits(#[trigger] rockets@[k], *bullet),
        decreases rockets@.len() - i,
    {
        assert(rockets@[i as int].wf());
        if bullet.owner != rockets[i].id && rockets[i].position.distance_squared(&bullet.position)
            < square(HIT_RADIUS) {
            return true;
        }
        i += 1;
    }
    false
}

/// Tests every rocket against every projectile. A rocket is eliminated when a
/// projectile that another rocket fired is closer than `HIT_RADIUS` to its
/// centre, and that projectile is removed. One hit is lethal; a rocket is never
/// hit by its own projectile.
pub fn check_bullet_coll(rockets: &Vec<Rocket>, bullets: &Vec<Bullet>) -> (hits: BulletHits)
    requires
        all_wf(rockets@),
        all_bullets_wf(bullets@),
    ensures
        hits.rockets@.len() == rockets@.len(),
        forall|i: int|
            0 <= i < rockets@.len() ==> hits.rockets@[i] == rocket_is_hit(
                #[trigger] rockets@[i],
                bullets@,
            ),
        hits.bullets@.len() == bullets@.len(),
        forall|j: int|
            0 <= j < bullets@.len() ==> hits.bullets@[j] == bullet_is_spent(
                #[trigger] bullets@[j],
                rockets@,
            ),
{
    let mut rocket_flags: Vec<bool> = Vec::new();
    let mut i: usize = 0;
    while i < rockets.len()
        invariant
            i <= rockets@.len(),
            all_wf(rockets@),
            all_bullets_wf(bullets@),
            rocket_flags@.len() == i,
            forall|k: int|
                0 <= k < i ==> rocket_flags@[k] == rocket_is_hit(#[trigger] rockets@[k], bullets@),
        decreases rockets@.len() - i,
    {
        assert(rockets@[i as int].wf());
        let hit: bool = check_rocket_hit(&rockets[i], bullets);
        rocket_flags.push(hit);
        i += 1;
    }
    let mut bullet_flags: Vec<bool> = Vec::new();
    let mut j: usize = 0;
    while j < bullets.len()
        invariant
            j <= bullets@.len(),
            all_wf(rockets@),
            all_bullets_wf(bullets@),
            bullet_flags@.len() == j,
            forall|k: int|
                0 <= k < j ==> bullet_flags@[k] == bullet_is_spent(
                    #[trigger] bullets@[k],
                    rockets@,
                ),
        decreases bullets@.len() - j,
    {
        assert(bullets@[j as int].wf());
        let hit: bool = check_bullet_spent(&bullets[j], rockets);
        bullet_flags.push(hit);
        j += 1;
    }
    BulletHits { rockets: rocket_flags, bullets: bullet_flags }
}

/// A shot starts the cooldown: a second pull of the trigger before the
/// cooldown has run out fires nothing and changes nothing, and one at or
/// after that moment fires again.
pub proof fn lemma_cooldown_gates_fire(r: Rocket, input: RocketInput, first: u64, second: u64)
    requires
        r.fires(input, first),
        first <= second,
    ensures
        second - first < r.cooldown ==> !r.after_trigger(input, first).fires(input, second)
            && r.after_trigger(input, first).after_trigger(input, second) == r.after_trigger(
            input,
            first,
        ),
        second - first >= r.cooldown ==> r.after_trigger(input, first).fires(input, second),
{
}

/// One rocket whose trigger is pulled twice puts one projectile into the
/// world if the second pull comes before the cooldown has run out, and two if
/// it comes later.
pub proof fn lemma_two_pulls(r: Rocket, keys: &InputSnapshot, first: u64, second: u64)
    requires
        r.fires(r.controls.resolved(keys), first),
        first <= second,
    ensures
        spawned(seq![r], keys, first) == seq![r.bullet()],
        second - first < r.cooldown ==> spawned(
            seq![r.after_trigger(r.controls.resolved(keys), first)],
            keys,
            second,
        ).len() == 0,
        second - first >= r.cooldown ==> spawned(
            seq![r.after_trigger(r.controls.resolved(keys), first)],
            keys,
            second,
        ) == seq![r.bullet()],
{
    let input = r.controls.resolved(keys);
    let after = r.after_trigger(input, first);
    lemma_cooldown_gates_fire(r, input, first, second);
    assert(seq![r].drop_last() =~= Seq::<Rocket>::empty());
    assert(seq![after].drop_last() =~= Seq::<Rocket>::empty());
    assert(spawned(Seq::<Rocket>::empty(), keys, first) =~= Seq::<Bullet>::empty());
    assert(spawned(Seq::<Rocket>::empty(), keys, second) =~= Seq::<Bullet>::empty());
    assert(seq![r].last() == r);
    assert(seq![after].last() == after);
    assert(Seq::<Bullet>::empty().push(r.bullet()) =~= seq![r.bullet()]);
    assert(after.bullet() == r.bullet());
}

} // verus!
