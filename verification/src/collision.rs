//! Lethal overlaps: rocket against sun, rocket against rocket.
//!
//! Every test compares the distance between two centres with a radius, by
//! their squares, and is made on the positions as they are when it is called:
//! the crashes of a frame are decided once flight, gravity and the edges of
//! the playfield have moved the rockets. The functions only decide: each
//! returns one flag per entity and leaves removing it to the host, so an
//! entity hit twice is still removed once.

use vstd::prelude::*;
use crate::flight::{fly_rockets, heading_for};
use crate::input::InputSnapshot;
use crate::rocket::{all_wf, Rocket};
use crate::vec2::{square, Vec2};

verus! {

/// A rocket dies this much before its own radius reaches the sun's centre.
pub const SUN_MARGIN: i64 = 30_000_000;

/// Two rockets die this much before the first one's radius reaches the
/// other's centre.
pub const ROCKET_MARGIN: i64 = 100_000_000;

/// A squared distance of `d2` is a distance below `radius`. No distance is
/// below a radius of zero or less.
pub open spec fn closer_than(d2: int, radius: int) -> bool {
    radius > 0 && d2 < radius * radius
}

/// The rocket overlaps the sun.
pub open spec fn hits_sun(r: Rocket) -> bool {
    closer_than(r.position.len_sq(), r.radius_collision + SUN_MARGIN)
}

/// Rocket `a` and rocket `b` overlap, measured with the radius of `a`.
pub open spec fn rockets_collide(a: Rocket, b: Rocket) -> bool {
    closer_than(a.position.dist_sq(b.position), a.radius_collision + ROCKET_MARGIN)
}

/// Rockets `i` and `j` are two rockets that overlap; the one that comes first
/// in the sequence lends its radius.
pub open spec fn pair_collides(rockets: Seq<Rocket>, i: int, j: int) -> bool {
    if i < j {
        rockets_collide(rockets[i], rockets[j])
    } else if j < i {
        rockets_collide(rockets[j], rockets[i])
    } else {
        false
    }
}

/// Rocket `i` overlaps some other rocket.
pub open spec fn collides_with_another(rockets: Seq<Rocket>, i: int) -> bool {
    exists|j: int| 0 <= j < rockets.len() && pair_collides(rockets, i, j)
}

/// Rocket `i` is eliminated: it overlaps the sun or another rocket.
pub open spec fn crashed(rockets: Seq<Rocket>, i: int) -> bool {
    hits_sun(rockets[i]) || collides_with_another(rockets, i)
}

/// Whether two points of the world are less than `radius` apart.
pub fn check_collision(a: &Vec2, b: &Vec2, radius: i64) -> (hit: bool)
    requires
        a.in_world(),
        b.in_world(),
    ensures
        hit == closer_than(a.dist_sq(*b), radius as int),
{
    radius > 0 && a.distance_squared(b) < square(radius)
}

/// Whether a point of the world is less than `radius` from the sun.
pub fn check_sun_collision(p: &Vec2, radius: i64) -> (hit: bool)
    requires
        p.in_world(),
    ensures
        hit == closer_than(p.len_sq(), radius as int),
{
    radius > 0 && p.length_squared() < square(radius)
}

/// Whether rocket `i` overlaps another rocket. There is no rocket beyond the
/// end of the list, and so none that overlaps.
pub fn check_rocket_collisions(rockets: &Vec<Rocket>, i: usize) -> (hit: bool)
    requires
        all_wf(rockets@),
    ensures
        hit == (i < rockets@.len() && collides_with_another(rockets@, i as int)),
{
    if i >= rockets.len() {
        return false;
    }
    let mut j: usize = 0;
    while j < rockets.len()
        invariant
            j <= rockets@.len(),
            i < rockets@.len(),
            all_wf(rockets@),
            forall|k: int| 0 <= k < j ==> !pair_collides(rockets@, i as int, k),
        decreases rockets@.len() - j,
    {
        assert(rockets@[i as int].wf() && rockets@[j as int].wf());
        let hit: bool = if i < j {
            check_collision(
                &rockets[i].position,
                &rockets[j].position,
                rockets[i].radius_collision + ROCKET_MARGIN,
            )
        } else if j < i {
            check_collision(
                &rockets[j].position,
                &rockets[i].position,
                rockets[j].radius_collision + ROCKET_MARGIN,
            )
        } else {
            false
        };
        if hit {
            assert(pair_collides(rockets@, i as int, j as int));
            return true;
        }
        j += 1;
    }
    false
}

/// Decides which rockets crashed: flag `i` of the result says whether rocket
/// `i`, where it stands now, overlaps the sun or another rocket. The host
/// calls this once every position of the frame is final, and removes the
/// flagged rockets.
pub fn check_rocket_crashes(rockets: &Vec<Rocket>) -> (eliminated: Vec<bool>)
    requires
        all_wf(rockets@),
    ensures
        eliminated@.len() == rockets@.len(),
        forall|i: int| 0 <= i < rockets@.len() ==> eliminated@[i] == crashed(rockets@, i),
{
    let mut eliminated: Vec<bool> = Vec::new();
    let mut i: usize = 0;
    while i < rockets.len()
        invariant
            i <= rockets@.len(),
            all_wf(rockets@),
            eliminated@.len() == i,
            forall|k: int| 0 <= k < i ==> eliminated@[k] == crashed(rockets@, k),
        decreases rockets@.len() - i,
    {
        assert(rockets@[i as int].wf());
        let sun: bool = check_sun_collision(
            &rockets[i].position,
            rockets[i].radius_collision + SUN_MARGIN,
        );
        let other: bool = check_rocket_collisions(rockets, i);
        eliminated.push(sun || other);
        i += 1;
    }
    eliminated
}

/// Flies every rocket through the frame, then decides which rockets crashed
/// where the flight has taken them.
///
/// `headings[i]` is where the nose of rocket `i` points after its turn, as
/// for `handle_rocket_movement`; a rocket without an entry keeps its
/// orientation. Flag `i` of the result says whether rocket `i`, at its new
/// position, overlaps the sun or another rocket. Where gravity and the edges
/// of the playfield move the rockets after this call, the crashes of the
/// frame are those that `check_rocket_crashes` finds after them.
pub fn update_rocket_status(
    dt: u64,
    keys: &InputSnapshot,
    rockets: &mut Vec<Rocket>,
    headings: &Vec<Vec2>,
) -> (eliminated: Vec<bool>)
    requires
        all_wf(old(rockets)@),
    ensures
        final(rockets)@.len() == old(rockets)@.len(),
        forall|i: int|
            0 <= i < old(rockets)@.len() ==> final(rockets)@[i] == (#[trigger] old(
                rockets,
            )@[i]).moved(
                old(rockets)@[i].controls.resolved(keys),
                heading_for(old(rockets)@, headings@, i),
                dt,
            ),
        all_wf(final(rockets)@),
        eliminated@.len() == final(rockets)@.len(),
        forall|i: int|
            0 <= i < final(rockets)@.len() ==> eliminated@[i] == crashed(final(rockets)@, i),
{
    fly_rockets(dt, keys, rockets, headings);
    check_rocket_crashes(rockets)
}

/// A collision takes both rockets, whichever is asked about first.
pub proof fn lemma_collision_is_mutual(rockets: Seq<Rocket>, i: int, j: int)
    requires
        0 <= i < rockets.len(),
        0 <= j < rockets.len(),
    ensures
        pair_collides(rockets, i, j) == pair_collides(rockets, j, i),
        pair_collides(rockets, i, j) ==> crashed(rockets, i) && crashed(rockets, j),
{
    if pair_collides(rockets, i, j) {
        assert(pair_collides(rockets, j, i));
    }
}

/// Two rockets at the same coordinates are both eliminated, provided the
/// radius of the first and the margin together are more than zero.
pub proof fn lemma_same_place_eliminates_both(rockets: Seq<Rocket>, i: int, j: int)
    requires
        0 <= i < j < rockets.len(),
        rockets[i].position == rockets[j].position,
        rockets[i].radius_collision + ROCKET_MARGIN > 0,
    ensures
        crashed(rockets, i),
        crashed(rockets, j),
{
    let radius = rockets[i].radius_collision + ROCKET_MARGIN;
    assert(0 < radius * radius) by (nonlinear_arith)
        requires
            radius > 0,
    ;
    assert(pair_collides(rockets, i, j));
    assert(pair_collides(rockets, j, i));
}

} // verus!
