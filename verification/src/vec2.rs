//! Points and directions in the plane.

use vstd::prelude::*;
use crate::sqrt::{
    ceil_sqrt, floor_sqrt, isqrt_ceil, lemma_ceil_sqrt_bounds, lemma_floor_sqrt_exists,
};
use crate::units::{
    clamp_coord, integrate, lemma_mul_div_within, lemma_scaled_length, lemma_trunc_div_bounds,
    magnitude, mul_div, over_time, saturate_coord, scale, trunc_div, COORD_MAX, ONE,
};

verus! {

/// A point, a displacement or a velocity, in fixed-point steps per axis.
#[derive(Clone, Copy, Debug, PartialEq, Eq, Structural)]
pub struct Vec2 {
    pub x: i64,
    pub y: i64,
}

impl Vec2 {
    /// The square of the vector's length.
    pub open spec fn len_sq(self) -> int {
        self.x * self.x + self.y * self.y
    }

    /// Both coordinates lie inside the world.
    pub open spec fn in_world(self) -> bool {
        -COORD_MAX <= self.x <= COORD_MAX && -COORD_MAX <= self.y <= COORD_MAX
    }

    /// The vector is at most one unit long, as an orientation on the unit
    /// circle is after rounding.
    pub open spec fn is_direction(self) -> bool {
        self.len_sq() <= ONE * ONE
    }

    /// Both components times `num / den`, each rounded toward zero.
    pub open spec fn scaled(self, num: int, den: int) -> Vec2 {
        Vec2 {
            x: mul_div(self.x as int, num, den) as i64,
            y: mul_div(self.y as int, num, den) as i64,
        }
    }

    /// The vector stretched or shrunk to the length `len`, never longer. The
    /// vector's own length is rounded up before the division and each
    /// component is rounded toward zero after it, so the result falls short of
    /// `len` by a step or two and by one part in the vector's length. The zero
    /// vector has no direction and stays as it is.
    pub open spec fn with_len(self, len: int) -> Vec2 {
        if self.len_sq() == 0 {
            self
        } else {
            self.scaled(len, ceil_sqrt(self.len_sq()))
        }
    }

    /// The vector as an orientation: brought to one unit of length, whatever
    /// its own, as nearly as `with_len` does. The zero vector points nowhere
    /// and stays zero.
    pub open spec fn as_direction(self) -> Vec2 {
        self.with_len(ONE as int)
    }

    /// The point reached from this one at `velocity` over a frame of `dt`
    /// nanoseconds, each coordinate held inside the world.
    pub open spec fn travelled(self, velocity: Vec2, dt: u64) -> Vec2 {
        Vec2 {
            x: clamp_coord(self.x + over_time(velocity.x as int, dt)) as i64,
            y: clamp_coord(self.y + over_time(velocity.y as int, dt)) as i64,
        }
    }

    /// The vector that points the other way.
    pub open spec fn reversed(self) -> Vec2 {
        Vec2 { x: (-self.x) as i64, y: (-self.y) as i64 }
    }

    /// The sum of two vectors, each coordinate held inside the world.
    pub open spec fn plus(self, d: Vec2) -> Vec2 {
        Vec2 { x: clamp_coord(self.x + d.x) as i64, y: clamp_coord(self.y + d.y) as i64 }
    }

    /// The square of the distance between two points.
    pub open spec fn dist_sq(self, other: Vec2) -> int {
        (self.x - other.x) * (self.x - other.x) + (self.y - other.y) * (self.y - other.y)
    }

    /// The vector with the given components.
    pub fn new(x: i64, y: i64) -> (v: Vec2)
        ensures
            v == (Vec2 { x, y }),
    {
        Vec2 { x, y }
    }

    /// The origin, where the sun sits.
    pub fn zero() -> (v: Vec2)
        ensures
            v == (Vec2 { x: 0, y: 0 }),
    {
        Vec2 { x: 0, y: 0 }
    }

    /// Whether both coordinates lie inside the world.
    pub fn is_in_world(&self) -> (b: bool)
        ensures
            b == self.in_world(),
    {
        -COORD_MAX <= self.x && self.x <= COORD_MAX && -COORD_MAX <= self.y && self.y <= COORD_MAX
    }

    /// The square of the vector's length.
    pub fn length_squared(&self) -> (r: u128)
        ensures
            r == self.len_sq(),
    {
        let sx: u128 = square(self.x);
        let sy: u128 = square(self.y);
        sx + sy
    }

    /// Whether the vector is at most one unit long.
    pub fn is_unit_or_shorter(&self) -> (b: bool)
        ensures
            b == self.is_direction(),
    {
        assert(ONE * ONE == 1_000_000_000_000) by (nonlinear_arith);
        self.length_squared() <= 1_000_000_000_000
    }

    /// Stretches or shrinks the vector to the length `len`, rounding each
    /// component toward zero. The zero vector is returned unchanged.
    pub fn with_length(&self, len: i64) -> (r: Vec2)
        requires
            len >= 0,
        ensures
            r == self.with_len(len as int),
            r.len_sq() <= len * len,
            self.len_sq() == 0 ==> r == *self,
    {
        let n: u128 = self.length_squared();
        if n == 0 {
            assert(self.x == 0 && self.y == 0) by (nonlinear_arith)
                requires
                    self.x * self.x + self.y * self.y == 0,
            ;
            return *self;
        }
        let c: u128 = isqrt_ceil(n);
        proof {
            lemma_component_within(self.x as int, self.y as int, c as int);
            lemma_scaled_length(self.x as int, self.y as int, len as int, c as int);
        }
        let x: i64 = scale(self.x, len, c as i128);
        let y: i64 = scale(self.y, len, c as i128);
        Vec2 { x, y }
    }

    /// Multiplies both components by `num / den`, rounding toward zero. Either
    /// the vector or `num` must not exceed `den` in magnitude.
    pub fn scale_by(&self, num: i64, den: i64) -> (r: Vec2)
        requires
            den > 0,
            (-den <= self.x <= den && -den <= self.y <= den && num > i64::MIN) || (-den <= num
                <= den && self.x > i64::MIN && self.y > i64::MIN),
        ensures
            r == self.scaled(num as int, den as int),
    {
        let x: i64 = scale(self.x, num, den as i128);
        let y: i64 = scale(self.y, num, den as i128);
        Vec2 { x, y }
    }

    /// The vector as an orientation: brought to one unit of length. The zero
    /// vector is returned unchanged.
    pub fn direction(&self) -> (r: Vec2)
        ensures
            r == self.as_direction(),
            r.is_direction(),
    {
        assert(ONE * ONE == 1_000_000_000_000) by (nonlinear_arith);
        self.with_length(ONE)
    }

    /// Moves the point at `velocity` over a frame of `dt` nanoseconds, holding
    /// each coordinate inside the world.
    pub fn travel(&self, velocity: Vec2, dt: u64) -> (r: Vec2)
        ensures
            r == self.travelled(velocity, dt),
            r.in_world(),
    {
        let dx: i128 = integrate(velocity.x, dt);
        let dy: i128 = integrate(velocity.y, dt);
        let x: i64 = saturate_coord(self.x as i128 + dx);
        let y: i64 = saturate_coord(self.y as i128 + dy);
        Vec2 { x, y }
    }

    /// The vector that points the other way.
    pub fn reverse(&self) -> (r: Vec2)
        requires
            self.x > i64::MIN,
            self.y > i64::MIN,
        ensures
            r == self.reversed(),
            r.len_sq() == self.len_sq(),
    {
        assert((-self.x) * (-self.x) == self.x * self.x && (-self.y) * (-self.y) == self.y
            * self.y) by (nonlinear_arith);
        Vec2 { x: -self.x, y: -self.y }
    }

    /// Adds a displacement, holding each coordinate inside the world.
    pub fn plus_clamped(&self, d: Vec2) -> (r: Vec2)
        ensures
            r == self.plus(d),
            r.in_world(),
    {
        let x: i64 = saturate_coord(self.x as i128 + d.x as i128);
        let y: i64 = saturate_coord(self.y as i128 + d.y as i128);
        Vec2 { x, y }
    }

    /// The square of the distance to another point of the world.
    pub fn distance_squared(&self, other: &Vec2) -> (r: u128)
        requires
            self.in_world(),
            other.in_world(),
        ensures
            r == self.dist_sq(*other),
    {
        let dx: i64 = self.x - other.x;
        let dy: i64 = self.y - other.y;
        let sx: u128 = square(dx);
        let sy: u128 = square(dy);
        sx + sy
    }
}

/// The square of a number.
pub fn square(a: i64) -> (r: u128)
    ensures
        r == a * a,
        r <= 0x4000_0000_0000_0000_0000_0000_0000_0000,
{
    assert(0 <= a * a <= 0x4000_0000_0000_0000_0000_0000_0000_0000) by (nonlinear_arith)
        requires
            -0x8000_0000_0000_0000 <= a <= 0x8000_0000_0000_0000,
    ;
    let wide: i128 = a as i128;
    (wide * wide) as u128
}

/// Stretching or shrinking gives a vector of at most the length asked for.
pub proof fn lemma_with_len_bounds(v: Vec2, len: int)
    requires
        0 <= len <= i64::MAX,
        v.len_sq() > 0,
    ensures
        v.with_len(len).len_sq() <= len * len,
        -len <= v.with_len(len).x <= len,
        -len <= v.with_len(len).y <= len,
{
    let n = v.len_sq();
    lemma_floor_sqrt_exists(n);
    lemma_ceil_sqrt_bounds(n, floor_sqrt(n));
    let c = ceil_sqrt(n);
    lemma_component_within(v.x as int, v.y as int, c);
    lemma_mul_div_within(v.x as int, len, c);
    lemma_mul_div_within(v.y as int, len, c);
    lemma_scaled_length(v.x as int, v.y as int, len, c);
}

/// Rounding toward zero loses less than one step of a quotient's magnitude.
proof fn lemma_trunc_div_reaches(p: int, c: int, m: int)
    requires
        c > 0,
        m == magnitude(trunc_div(p, c)) + 1,
    ensures
        m * c > magnitude(p),
        (m * c) * (m * c) > p * p,
{
    lemma_trunc_div_bounds(p, c);
    let t = trunc_div(p, c);
    assert(m * c > magnitude(p)) by (nonlinear_arith)
        requires
            c > 0,
            m == magnitude(t) + 1,
            p >= 0 ==> 0 <= t && p < (t + 1) * c,
            p <= 0 ==> t <= 0 && (t - 1) * c < p,
    ;
    assert((m * c) * (m * c) > p * p) by (nonlinear_arith)
        requires
            m * c > magnitude(p),
    ;
}

/// Stretching or shrinking falls short of the length asked for by little.
/// Add one step to the magnitude of each component of the result: seen
/// against the length of the vector, rounded up, the result is then longer
/// than `len` is against that length less one.
pub proof fn lemma_with_len_reaches(v: Vec2, len: int)
    requires
        0 <= len <= i64::MAX,
        v.len_sq() > 0,
    ensures
        ((magnitude(v.with_len(len).x as int) + 1) * (magnitude(v.with_len(len).x as int) + 1) + (magnitude(
            v.with_len(len).y as int,
        ) + 1) * (magnitude(v.with_len(len).y as int) + 1)) * (ceil_sqrt(v.len_sq()) * ceil_sqrt(
            v.len_sq(),
        )) > (ceil_sqrt(v.len_sq()) - 1) * (ceil_sqrt(v.len_sq()) - 1) * (len * len),
{
    let n = v.len_sq();
    lemma_floor_sqrt_exists(n);
    lemma_ceil_sqrt_bounds(n, floor_sqrt(n));
    lemma_with_len_bounds(v, len);
    let c = ceil_sqrt(n);
    let r = v.with_len(len);
    let ma: int = magnitude(r.x as int) + 1;
    let mb: int = magnitude(r.y as int) + 1;
    let x = v.x as int;
    let y = v.y as int;
    lemma_component_within(x, y, c);
    lemma_mul_div_within(x, len, c);
    lemma_mul_div_within(y, len, c);
    assert(r.x == trunc_div(x * len, c) && r.y == trunc_div(y * len, c));
    lemma_trunc_div_reaches(x * len, c, ma);
    lemma_trunc_div_reaches(y * len, c, mb);
    assert((ma * ma + mb * mb) * (c * c) == (ma * c) * (ma * c) + (mb * c) * (mb * c))
        by (nonlinear_arith);
    assert((x * len) * (x * len) + (y * len) * (y * len) == (x * x + y * y) * (len * len))
        by (nonlinear_arith);
    assert((x * x + y * y) * (len * len) >= (c - 1) * (c - 1) * (len * len)) by (nonlinear_arith)
        requires
            x * x + y * y > (c - 1) * (c - 1),
    ;
}

/// Read as an orientation, a vector that is itself half a unit long or
/// longer is one unit long to within rounding: never longer, and with one
/// step added to the magnitude of each component, longer than one unit less
/// two steps.
pub proof fn lemma_direction_is_unit(v: Vec2)
    requires
        v.len_sq() >= 250_000_000_000,
    ensures
        v.as_direction().len_sq() <= ONE * ONE,
        (magnitude(v.as_direction().x as int) + 1) * (magnitude(v.as_direction().x as int) + 1)
            + (magnitude(v.as_direction().y as int) + 1) * (magnitude(v.as_direction().y as int)
            + 1) > (ONE - 2) * (ONE - 2),
{
    let n = v.len_sq();
    lemma_floor_sqrt_exists(n);
    lemma_ceil_sqrt_bounds(n, floor_sqrt(n));
    lemma_as_direction(v);
    lemma_with_len_reaches(v, ONE as int);
    let c = ceil_sqrt(n);
    let d = v.as_direction();
    let q: int = (magnitude(d.x as int) + 1) * (magnitude(d.x as int) + 1) + (magnitude(
        d.y as int,
    ) + 1) * (magnitude(d.y as int) + 1);
    assert(c >= 500_000) by (nonlinear_arith)
        requires
            c >= 0,
            c * c >= n,
            n >= 250_000_000_000,
    ;
    assert(q > (ONE - 2) * (ONE - 2)) by (nonlinear_arith)
        requires
            c >= 500_000,
            ONE == 1_000_000,
            q * (c * c) > (c - 1) * (c - 1) * (ONE * ONE),
    ;
}

/// Read as an orientation, a vector is at most one unit long.
pub proof fn lemma_as_direction(v: Vec2)
    ensures
        v.as_direction().is_direction(),
{
    assert(ONE * ONE == 1_000_000_000_000) by (nonlinear_arith);
    assert(v.len_sq() >= 0) by (nonlinear_arith);
    if v.len_sq() > 0 {
        lemma_with_len_bounds(v, ONE as int);
    }
}

/// A component is never longer than its vector.
pub proof fn lemma_component_within(a: int, b: int, c: int)
    by (nonlinear_arith)
    requires
        c >= 0,
        a * a + b * b <= c * c,
    ensures
        -c <= a <= c,
        -c <= b <= c,
{
}

} // verus!
