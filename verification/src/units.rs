//! Scales, limits and the rounding rules shared by every component.

use vstd::prelude::*;

verus! {

/// Steps per world unit: lengths, speeds (per second) and angles (radians)
/// are counted in millionths.
pub const ONE: i64 = 1_000_000;

/// Time is counted in nanoseconds.
pub const NANOS_PER_SEC: u64 = 1_000_000_000;

/// The shortest frame the simulation integrates over (one microsecond).
pub const DT_MIN: u64 = 1_000;

/// Coordinates saturate at this distance from the origin on either axis.
pub const COORD_MAX: i64 = 1_000_000_000_000_000;

/// The largest speed cap a rocket or projectile may be given.
pub const SPEED_MAX: i64 = 1_000_000_000_000;

/// Division that rounds toward zero, for a positive divisor.
pub open spec fn trunc_div(a: int, b: int) -> int {
    if a >= 0 {
        a / b
    } else {
        -((-a) / b)
    }
}

/// A number without its sign.
pub open spec fn magnitude(a: int) -> int {
    if a >= 0 {
        a
    } else {
        -a
    }
}

/// `v` limited to the interval from `lo` to `hi`.
pub open spec fn clamp(v: int, lo: int, hi: int) -> int {
    if v < lo {
        lo
    } else if v > hi {
        hi
    } else {
        v
    }
}

/// `a * num / den`, rounded toward zero.
pub open spec fn mul_div(a: int, num: int, den: int) -> int {
    trunc_div(a * num, den)
}

/// The frame length that is integrated over: `dt` itself, or `DT_MIN` where
/// `dt` is shorter, so that time never stands still.
pub open spec fn effective_dt(dt: u64) -> int {
    if dt < DT_MIN {
        DT_MIN as int
    } else {
        dt as int
    }
}

/// What a rate per second amounts to over a frame of `dt` nanoseconds,
/// rounded toward zero.
pub open spec fn over_time(rate: int, dt: u64) -> int {
    mul_div(rate, effective_dt(dt), NANOS_PER_SEC as int)
}

/// What a rate per second of zero or more amounts to over a frame of `dt`
/// nanoseconds, rounded up.
pub open spec fn over_time_up(rate: int, dt: u64) -> int {
    (rate * effective_dt(dt) + NANOS_PER_SEC - 1) / (NANOS_PER_SEC as int)
}

/// A coordinate held inside the world.
pub open spec fn clamp_coord(c: int) -> int {
    clamp(c, -(COORD_MAX as int), COORD_MAX as int)
}

/// The frame length that is integrated over: no frame is shorter than
/// `DT_MIN`, and none is cut short.
pub fn clamp_dt(dt: u64) -> (r: u64)
    ensures
        r == effective_dt(dt),
        r >= DT_MIN,
        r >= dt,
{
    if dt < DT_MIN {
        DT_MIN
    } else {
        dt
    }
}

/// Limits a coordinate to the world.
pub fn saturate_coord(c: i128) -> (r: i64)
    ensures
        r == clamp_coord(c as int),
        -COORD_MAX <= r <= COORD_MAX,
{
    if c < -(COORD_MAX as i128) {
        -COORD_MAX
    } else if c > COORD_MAX as i128 {
        COORD_MAX
    } else {
        c as i64
    }
}

/// Computes `a * num / den` rounded toward zero. One of the two factors must
/// not exceed the divisor in magnitude and the other must not be `i64::MIN`,
/// which keeps the result in range.
pub fn scale(a: i64, num: i64, den: i128) -> (r: i64)
    requires
        den > 0,
        (-den <= a <= den && num > i64::MIN) || (-den <= num <= den && a > i64::MIN),
    ensures
        r == mul_div(a as int, num as int, den as int),
{
    assert(-0x4000_0000_0000_0000_0000_0000_0000_0000 <= a * num
        <= 0x4000_0000_0000_0000_0000_0000_0000_0000) by (nonlinear_arith)
        requires
            -0x8000_0000_0000_0000 <= a <= 0x8000_0000_0000_0000,
            -0x8000_0000_0000_0000 <= num <= 0x8000_0000_0000_0000,
    ;
    proof {
        if -den <= a <= den && num > i64::MIN {
            lemma_mul_div_within(a as int, num as int, den as int);
        } else {
            assert(a * num == num * a) by (nonlinear_arith);
            lemma_mul_div_within(num as int, a as int, den as int);
        }
    }
    let wide: i128 = (a as i128) * (num as i128);
    let q: i128 = wide / den;
    q as i64
}

/// What a rate per second amounts to over a frame of `dt` nanoseconds,
/// rounded toward zero.
pub fn integrate(rate: i64, dt: u64) -> (r: i128)
    ensures
        r == over_time(rate as int, dt),
        rate >= 0 ==> r >= 0,
        rate <= 0 ==> r <= 0,
        -0x4_0000_0000_0000_0000_0000_0000 <= r <= 0x4_0000_0000_0000_0000_0000_0000,
{
    let step: u64 = clamp_dt(dt);
    proof {
        lemma_product_fits(rate as int, step as int);
        lemma_over_time_sign(rate as int, dt);
        lemma_trunc_div_bounds(rate * step, NANOS_PER_SEC as int);
    }
    let wide: i128 = (rate as i128) * (step as i128);
    wide / (NANOS_PER_SEC as i128)
}

/// What a rate per second of zero or more amounts to over a frame of `dt`
/// nanoseconds, rounded up.
pub fn integrate_up(rate: i64, dt: u64) -> (r: i128)
    requires
        rate >= 0,
    ensures
        r == over_time_up(rate as int, dt),
        0 <= r <= 0x4_0000_0000_0000_0000_0000_0000,
{
    let step: u64 = clamp_dt(dt);
    proof {
        lemma_product_fits(rate as int, step as int);
        lemma_over_time_up(rate as int, dt);
    }
    let wide: i128 = (rate as i128) * (step as i128);
    (wide + (NANOS_PER_SEC as i128 - 1)) / (NANOS_PER_SEC as i128)
}

/// Rounding toward zero keeps the sign and loses less than one divisor.
pub proof fn lemma_trunc_div_bounds(a: int, b: int)
    requires
        b > 0,
    ensures
        a >= 0 ==> 0 <= trunc_div(a, b) && trunc_div(a, b) * b <= a < (trunc_div(a, b) + 1) * b,
        a <= 0 ==> trunc_div(a, b) <= 0 && (trunc_div(a, b) - 1) * b < a <= trunc_div(a, b) * b,
        trunc_div(-a, b) == -trunc_div(a, b),
{
    lemma_trunc_div_unfolded(a, b, trunc_div(a, b), trunc_div(-a, b));
}

proof fn lemma_trunc_div_unfolded(a: int, b: int, t: int, u: int)
    by (nonlinear_arith)
    requires
        b > 0,
        t == (if a >= 0 { a / b } else { -((-a) / b) }),
        u == (if -a >= 0 { (-a) / b } else { -((-(-a)) / b) }),
    ensures
        a >= 0 ==> 0 <= t && t * b <= a < (t + 1) * b,
        a <= 0 ==> t <= 0 && (t - 1) * b < a <= t * b,
        u == -t,
{
}

/// Rounding toward zero keeps the order.
pub proof fn lemma_trunc_div_monotonic(a: int, c: int, b: int)
    requires
        b > 0,
        a <= c,
    ensures
        trunc_div(a, b) <= trunc_div(c, b),
{
    lemma_trunc_div_bounds(a, b);
    lemma_trunc_div_bounds(c, b);
    let p = trunc_div(a, b);
    let q = trunc_div(c, b);
    if p > q {
        assert(p * b >= (q + 1) * b && (p - 1) * b >= q * b) by (nonlinear_arith)
            requires
                b > 0,
                p > q,
        ;
    }
}

/// A multiple of the divisor divides without remainder.
pub proof fn lemma_trunc_div_exact(q: int, b: int)
    requires
        b > 0,
    ensures
        trunc_div(q * b, b) == q,
{
    let t = trunc_div(q * b, b);
    lemma_trunc_div_bounds(q * b, b);
    assert(t == q) by (nonlinear_arith)
        requires
            b > 0,
            q * b >= 0 ==> t * b <= q * b < (t + 1) * b,
            q * b <= 0 ==> (t - 1) * b < q * b <= t * b,
    ;
}

/// Scaling by a ratio of zero or more keeps the sign, and the magnitude does
/// not pass what the ratio allows.
pub proof fn lemma_mul_div_sign(a: int, num: int, den: int)
    requires
        den > 0,
        num >= 0,
    ensures
        a >= 0 ==> mul_div(a, num, den) >= 0,
        a <= 0 ==> mul_div(a, num, den) <= 0,
        magnitude(mul_div(a, num, den)) * den <= magnitude(a) * num,
{
    let p = a * num;
    assert((a >= 0 ==> p >= 0) && (a <= 0 ==> p <= 0) && magnitude(p) == magnitude(a) * num)
        by (nonlinear_arith)
        requires
            num >= 0,
            p == a * num,
    ;
    lemma_trunc_div_bounds(p, den);
    let t = trunc_div(p, den);
    assert((-t) * den == -(t * den)) by (nonlinear_arith);
}

/// `|a * num / den| <= |num|` whenever `|a| <= den`.
pub proof fn lemma_mul_div_within(a: int, num: int, den: int)
    requires
        den > 0,
        -den <= a <= den,
    ensures
        num >= 0 ==> -num <= mul_div(a, num, den) <= num,
        num <= 0 ==> num <= mul_div(a, num, den) <= -num,
{
    let m = if num >= 0 { num } else { -num };
    assert(-(m * den) <= a * num <= m * den && (-m) * den == -(m * den)) by (nonlinear_arith)
        requires
            -den <= a <= den,
            den > 0,
            m >= 0,
            num == m || num == -m,
    ;
    lemma_trunc_div_monotonic(a * num, m * den, den);
    lemma_trunc_div_monotonic((-m) * den, a * num, den);
    lemma_trunc_div_exact(m, den);
    lemma_trunc_div_exact(-m, den);
}

/// The magnitude of `a * num / den` is at most `|a| * |num| / den`: scaling
/// the square of the result back up cannot pass the square of the product.
pub proof fn lemma_mul_div_square(a: int, num: int, den: int)
    requires
        den > 0,
    ensures
        mul_div(a, num, den) * mul_div(a, num, den) * (den * den) <= (a * a) * (num * num),
{
    let p = a * num;
    let r = trunc_div(p, den);
    lemma_trunc_div_bounds(p, den);
    assert((r * den) * (r * den) <= p * p) by (nonlinear_arith)
        requires
            den > 0,
            p >= 0 ==> 0 <= r && r * den <= p,
            p <= 0 ==> r <= 0 && p <= r * den,
    ;
    assert((r * den) * (r * den) == r * r * (den * den)) by (nonlinear_arith);
    assert(p * p == (a * a) * (num * num)) by (nonlinear_arith)
        requires
            p == a * num,
    ;
}

/// Scaling both components of a vector no longer than `den` by `num / den`
/// gives a vector no longer than `num`.
pub proof fn lemma_scaled_length(a: int, b: int, num: int, den: int)
    requires
        den > 0,
        a * a + b * b <= den * den,
    ensures
        mul_div(a, num, den) * mul_div(a, num, den) + mul_div(b, num, den) * mul_div(
            b,
            num,
            den,
        ) <= num * num,
{
    let ra = mul_div(a, num, den);
    let rb = mul_div(b, num, den);
    lemma_mul_div_square(a, num, den);
    lemma_mul_div_square(b, num, den);
    let sa = ra * ra;
    let sb = rb * rb;
    let dd = den * den;
    let nn = num * num;
    let aa = a * a;
    let bb = b * b;
    assert(dd > 0 && nn >= 0) by (nonlinear_arith)
        requires
            den > 0,
            dd == den * den,
            nn == num * num,
    ;
    assert(sa * dd == ra * ra * (den * den) && sb * dd == rb * rb * (den * den));
    assert(sa + sb <= nn) by (nonlinear_arith)
        requires
            dd > 0,
            nn >= 0,
            sa * dd <= aa * nn,
            sb * dd <= bb * nn,
            aa + bb <= dd,
    ;
}

/// The product of a 64-bit rate and a 64-bit frame length fits 128 bits with
/// room for one more second.
pub proof fn lemma_product_fits(rate: int, step: int)
    by (nonlinear_arith)
    requires
        -0x8000_0000_0000_0000 <= rate < 0x8000_0000_0000_0000,
        0 <= step < 0x1_0000_0000_0000_0000,
    ensures
        -0x8000_0000_0000_0000_0000_0000_0000_0000 + 0x8000_0000_0000_0000 <= rate * step,
        rate * step <= 0x8000_0000_0000_0000_0000_0000_0000_0000 - 0x1_0000_0000_0000_0000,
        rate >= 0 ==> rate * step >= 0,
{
}

/// Over a frame a rate of at most `cap` either way amounts to at most `cap`
/// over that frame.
pub proof fn lemma_over_time_magnitude(rate: int, cap: int, dt: u64)
    requires
        -cap <= rate <= cap,
    ensures
        -(cap * effective_dt(dt)) <= over_time(rate, dt) * NANOS_PER_SEC <= cap * effective_dt(dt),
{
    let step = effective_dt(dt);
    assert(-(cap * step) <= rate * step <= cap * step) by (nonlinear_arith)
        requires
            step > 0,
            -cap <= rate <= cap,
    ;
    lemma_trunc_div_bounds(rate * step, NANOS_PER_SEC as int);
}

/// Rounding up loses nothing and adds less than one step, and never gives
/// less than rounding toward zero does.
pub proof fn lemma_over_time_up(rate: int, dt: u64)
    requires
        rate >= 0,
    ensures
        over_time_up(rate, dt) * NANOS_PER_SEC >= rate * effective_dt(dt),
        over_time_up(rate, dt) * NANOS_PER_SEC < rate * effective_dt(dt) + NANOS_PER_SEC,
        over_time_up(rate, dt) >= over_time(rate, dt),
        over_time(rate, dt) >= 0,
{
    let step = effective_dt(dt);
    let p = rate * step;
    assert(p >= 0) by (nonlinear_arith)
        requires
            rate >= 0,
            step > 0,
            p == rate * step,
    ;
    let u = (p + NANOS_PER_SEC - 1) / (NANOS_PER_SEC as int);
    assert(u * 1_000_000_000 >= p && u * 1_000_000_000 < p + 1_000_000_000) by (nonlinear_arith)
        requires
            p >= 0,
            u == (p + 1_000_000_000 - 1) / 1_000_000_000int,
    ;
    lemma_trunc_div_bounds(p, NANOS_PER_SEC as int);
}

/// Over a frame a rate keeps its sign.
pub proof fn lemma_over_time_sign(rate: int, dt: u64)
    ensures
        rate >= 0 ==> over_time(rate, dt) >= 0,
        rate <= 0 ==> over_time(rate, dt) <= 0,
{
    let step = effective_dt(dt);
    assert(rate >= 0 ==> rate * step >= 0) by (nonlinear_arith)
        requires
            step > 0,
    ;
    assert(rate <= 0 ==> rate * step <= 0) by (nonlinear_arith)
        requires
            step > 0,
    ;
    lemma_trunc_div_bounds(rate * step, NANOS_PER_SEC as int);
}

/// A rate of at least `q` million steps per second amounts to at least `q`
/// steps over any frame, the shortest included.
pub proof fn lemma_over_time_floor(rate: int, q: int, dt: u64)
    requires
        q >= 0,
        rate >= q * 1_000_000,
    ensures
        over_time(rate, dt) >= q,
{
    let step = effective_dt(dt);
    assert(rate * step >= q * (NANOS_PER_SEC as int)) by (nonlinear_arith)
        requires
            step >= 1_000,
            q >= 0,
            rate >= q * 1_000_000,
            NANOS_PER_SEC == 1_000_000_000,
    ;
    lemma_trunc_div_monotonic(q * (NANOS_PER_SEC as int), rate * step, NANOS_PER_SEC as int);
    lemma_trunc_div_exact(q, NANOS_PER_SEC as int);
}

} // verus!
