//! Fixed-point quantities and plane geometry.
//!
//! Every quantity of the game is an integer count of a small unit:
//!
//! * time in microseconds (`u64`);
//! * lengths and coordinates in millionths of a world unit (`i32`, `u32`);
//! * health and damage in billionths of a point (`u64`);
//! * rates (speed, damage per second) in thousandths per second (`u32`);
//! * difficulty factors in billionths (`u64`).
//!
//! A rate applied for a time is then the plain product for amounts
//! (thousandths per second times microseconds are billionths), and the
//! product divided by a thousand for lengths.

use vstd::prelude::*;

verus! {

/// Microseconds in one second.
pub const SECOND: u64 = 1_000_000;

/// Millionths in one world unit of length.
pub const UNIT: i32 = 1_000_000;

/// Billionths in one point of health or damage.
pub const POINT: u64 = 1_000_000_000;

/// Thousandths in a rate of one per second.
pub const PER_SECOND: u32 = 1_000;

/// Billionths in a factor of one.
pub const FACTOR_ONE: u64 = 1_000_000_000;

/// `v` brought into the range of a coordinate.
pub open spec fn clamp_coord(v: int) -> int {
    if v < i32::MIN {
        i32::MIN as int
    } else if v > i32::MAX {
        i32::MAX as int
    } else {
        v
    }
}

/// `v` cut off at the top of the `u64` range.
pub open spec fn cap_u64(v: int) -> int {
    if v > u64::MAX {
        u64::MAX as int
    } else {
        v
    }
}

/// `v` cut off at the top of the `u32` range.
pub open spec fn cap_u32(v: int) -> int {
    if v > u32::MAX {
        u32::MAX as int
    } else {
        v
    }
}

/// `r` is the integer square root of `n`.
pub open spec fn is_sqrt(n: nat, r: nat) -> bool {
    r * r <= n && n < (r + 1) * (r + 1)
}

/// The integer square root of `n`: the largest `r` whose square is at most `n`.
pub open spec fn sqrt(n: nat) -> nat {
    choose|r: nat| is_sqrt(n, r)
}

/// At most one number is the integer square root of `n`.
pub proof fn lemma_sqrt_unique(n: nat, r: nat, s: nat)
    requires
        is_sqrt(n, r),
        is_sqrt(n, s),
    ensures
        r == s,
{
    if r < s {
        assert((r + 1) * (r + 1) <= s * s) by (nonlinear_arith)
            requires
                r + 1 <= s,
        ;
    } else if s < r {
        assert((s + 1) * (s + 1) <= r * r) by (nonlinear_arith)
            requires
                s + 1 <= r,
        ;
    }
}

/// A number that satisfies the defining inequalities is the square root.
pub proof fn lemma_sqrt_is(n: nat, r: nat)
    requires
        is_sqrt(n, r),
    ensures
        sqrt(n) == r,
{
    lemma_sqrt_unique(n, r, sqrt(n));
}

/// Integer square root.
pub fn isqrt(n: u128) -> (r: u64)
    ensures
        r == sqrt(n as nat),
        is_sqrt(n as nat, r as nat),
{
    let mut lo: u128 = 0;
    let mut hi: u128 = 0x1_0000_0000_0000_0000;
    assert(0x1_0000_0000_0000_0000int * 0x1_0000_0000_0000_0000int
        == 0x1_0000_0000_0000_0000_0000_0000_0000_0000int) by (nonlinear_arith);
    while hi - lo > 1
        invariant
            lo < hi <= 0x1_0000_0000_0000_0000,
            lo * lo <= n,
            n < hi * hi,
        decreases hi - lo,
    {
        let mid: u128 = lo + (hi - lo) / 2;
        assert(mid * mid <= 0xffff_ffff_ffff_ffffint * 0xffff_ffff_ffff_ffffint)
            by (nonlinear_arith)
            requires
                0 <= mid <= 0xffff_ffff_ffff_ffffint,
        ;
        assert(0xffff_ffff_ffff_ffffint * 0xffff_ffff_ffff_ffffint < u128::MAX)
            by (nonlinear_arith);
        let square: u128 = mid * mid;
        if square <= n {
            lo = mid;
        } else {
            hi = mid;
        }
    }
    proof {
        assert(hi == lo + 1);
        lemma_sqrt_is(n as nat, lo as nat);
    }
    lo as u64
}

/// The length of the vector `(dx, dy)`, rounded down.
pub open spec fn length(dx: int, dy: int) -> nat {
    sqrt((dx * dx + dy * dy) as nat)
}

/// The size of one component of a step of length `dist` along a vector:
/// `size * dist / length`, rounded down, where `size` is the size of that
/// component of the vector and `n` the square of the vector's length. The
/// length enters unrounded: the result is the largest whole number whose
/// square, times `n`, is at most the square of `size * dist`.
pub open spec fn component(size: nat, dist: nat, n: nat) -> nat
    recommends
        n > 0,
{
    sqrt(((size * dist) * (size * dist)) / n)
}

/// One component of a step of length `dist` along the vector whose
/// components are `d` (this one) and `other`: `d * dist / length`, rounded
/// toward zero. The zero vector gives no step.
pub open spec fn toward(d: int, other: int, dist: nat) -> int {
    let n = (d * d + other * other) as nat;
    if n == 0 {
        0
    } else if d >= 0 {
        component(d as nat, dist, n) as int
    } else {
        -(component((-d) as nat, dist, n) as int)
    }
}

/// Every number has an integer square root.
pub proof fn lemma_sqrt_exists(n: nat)
    ensures
        is_sqrt(n, sqrt(n)),
    decreases n,
{
    if n == 0 {
        assert(0nat * 0nat <= 0 && 0 < (0nat + 1) * (0nat + 1)) by (nonlinear_arith);
        assert(is_sqrt(0, 0));
    } else {
        lemma_sqrt_exists((n - 1) as nat);
        let r = sqrt((n - 1) as nat);
        if n < (r + 1) * (r + 1) {
            assert(is_sqrt(n, r));
        } else {
            assert(((r + 1) + 1) * ((r + 1) + 1) == (r + 1) * (r + 1) + 2 * r + 3)
                by (nonlinear_arith);
            assert(is_sqrt(n, r + 1));
        }
    }
}

/// A component of a step is the true quotient rounded down: its square
/// times the square of the vector's length is at most the square of
/// `size * dist`, and that of the next number is more; it is never longer
/// than the step.
pub proof fn lemma_component(size: nat, dist: nat, n: nat)
    requires
        n > 0,
        size * size <= n,
    ensures
        component(size, dist, n) * component(size, dist, n) * n <= (size * dist) * (size * dist),
        (size * dist) * (size * dist) < (component(size, dist, n) + 1) * (component(size, dist, n)
            + 1) * n,
        component(size, dist, n) <= dist,
{
    let a = (size * dist) as int;
    let sq = a * a;
    let k = n as int;
    let m = sq / k;
    assert(sq >= 0) by (nonlinear_arith)
        requires
            sq == a * a,
    ;
    vstd::arithmetic::div_mod::lemma_fundamental_div_mod(sq, k);
    vstd::arithmetic::div_mod::lemma_mod_bound(sq, k);
    vstd::arithmetic::div_mod::lemma_div_pos_is_pos(sq, k);
    lemma_sqrt_exists(m as nat);
    let c = component(size, dist, n) as int;
    assert(c == sqrt(m as nat));
    let cc = c * c;
    let dd = (c + 1) * (c + 1);
    assert(cc <= m && m + 1 <= dd);
    assert(cc * k <= sq) by (nonlinear_arith)
        requires
            cc <= m,
            k > 0,
            sq == k * m + sq % k,
            sq % k >= 0,
    ;
    assert(sq < dd * k) by (nonlinear_arith)
        requires
            m + 1 <= dd,
            k > 0,
            sq == k * m + sq % k,
            sq % k < k,
    ;
    let e = dist as int;
    let ss = (size * size) as int;
    assert(sq == ss * (e * e)) by (nonlinear_arith)
        requires
            a == size * e,
            sq == a * a,
            ss == size * size,
    ;
    assert(sq <= k * (e * e)) by (nonlinear_arith)
        requires
            sq == ss * (e * e),
            ss <= k,
            e * e >= 0,
    ;
    assert(e * e >= 0) by (nonlinear_arith);
    if c > e {
        assert(cc > e * e) by (nonlinear_arith)
            requires
                c > e,
                e >= 0,
                cc == c * c,
        ;
        assert(cc * k > (e * e) * k) by (nonlinear_arith)
            requires
                cc > e * e,
                k > 0,
        ;
        assert((e * e) * k == k * (e * e)) by (nonlinear_arith);
    }
}

/// The length covered in `dt` microseconds at `speed` thousandths of a unit
/// per second, in millionths of a unit, cut off at the `u32` range.
pub open spec fn step_length(speed: u32, dt: u64) -> u32 {
    cap_u32((speed as int * dt as int) / 1000) as u32
}

/// The amount that builds up in `dt` microseconds at `rate` thousandths of a
/// point per second, in billionths of a point, cut off at the `u64` range.
pub open spec fn amount(rate: u32, dt: u64) -> u64 {
    cap_u64(rate as int * dt as int) as u64
}

/// `base` times `factor` billionths, rounded down and cut off at the `u64` range.
pub open spec fn scaled(base: u64, factor: u64) -> u64 {
    cap_u64((base as int * factor as int) / (FACTOR_ONE as int)) as u64
}

/// `value` times `num / den`, rounded down and cut off at the `u64` range;
/// `value` itself where `den` is zero.
pub open spec fn ratio(value: u64, num: u64, den: u64) -> u64 {
    if den == 0 {
        value
    } else {
        cap_u64((value as int * num as int) / (den as int)) as u64
    }
}

/// Computes [`step_length`].
pub fn compute_step_length(speed: u32, dt: u64) -> (r: u32)
    ensures
        r == step_length(speed, dt),
{
    assert(speed as int * dt as int <= 0xffff_ffffint * 0xffff_ffff_ffff_ffffint)
        by (nonlinear_arith)
        requires
            0 <= speed <= 0xffff_ffffint,
            0 <= dt <= 0xffff_ffff_ffff_ffffint,
    ;
    let product: u128 = (speed as u128) * (dt as u128);
    let length: u128 = product / 1000;
    if length > u32::MAX as u128 {
        u32::MAX
    } else {
        length as u32
    }
}

/// Computes [`amount`].
pub fn compute_amount(rate: u32, dt: u64) -> (r: u64)
    ensures
        r == amount(rate, dt),
{
    assert(rate as int * dt as int <= 0xffff_ffffint * 0xffff_ffff_ffff_ffffint)
        by (nonlinear_arith)
        requires
            0 <= rate <= 0xffff_ffffint,
            0 <= dt <= 0xffff_ffff_ffff_ffffint,
    ;
    let product: u128 = (rate as u128) * (dt as u128);
    if product > u64::MAX as u128 {
        u64::MAX
    } else {
        product as u64
    }
}

/// Computes [`ratio`].
pub fn compute_ratio(value: u64, num: u64, den: u64) -> (r: u64)
    ensures
        r == ratio(value, num, den),
{
    if den == 0 {
        return value;
    }
    assert(value as int * num as int <= 0xffff_ffff_ffff_ffffint * 0xffff_ffff_ffff_ffffint)
        by (nonlinear_arith)
        requires
            0 <= value <= 0xffff_ffff_ffff_ffffint,
            0 <= num <= 0xffff_ffff_ffff_ffffint,
    ;
    let product: u128 = (value as u128) * (num as u128);
    let quotient: u128 = product / (den as u128);
    if quotient > u64::MAX as u128 {
        u64::MAX
    } else {
        quotient as u64
    }
}

/// Computes [`scaled`].
pub fn compute_scaled(base: u64, factor: u64) -> (r: u64)
    ensures
        r == scaled(base, factor),
{
    compute_ratio(base, factor, FACTOR_ONE)
}

/// A point or a vector of the plane, each coordinate in millionths of a unit.
#[derive(Clone, Copy, PartialEq, Eq, Structural, Debug)]
pub struct Vec2 {
    pub x: i32,
    pub y: i32,
}

impl Vec2 {
    /// The point with the given coordinates.
    pub fn new(x: i32, y: i32) -> (r: Vec2)
        ensures
            r == (Vec2 { x, y }),
    {
        Vec2 { x, y }
    }

    /// The origin.
    pub fn zero() -> (r: Vec2)
        ensures
            r == (Vec2 { x: 0, y: 0 }),
    {
        Vec2 { x: 0, y: 0 }
    }

    /// The square of the distance between two points.
    pub open spec fn distance_squared(self, other: Vec2) -> nat {
        ((self.x - other.x) * (self.x - other.x) + (self.y - other.y) * (self.y - other.y)) as nat
    }

    /// This point moved by `(dx, dy)`, each coordinate kept inside the plane.
    pub open spec fn shifted(self, dx: int, dy: int) -> Vec2 {
        Vec2 { x: clamp_coord(self.x + dx) as i32, y: clamp_coord(self.y + dy) as i32 }
    }

    /// This point moved by `dist` along the vector `(dx, dy)`.
    pub open spec fn moved(self, dx: int, dy: int, dist: nat) -> Vec2 {
        self.shifted(toward(dx, dy, dist), toward(dy, dx, dist))
    }

    /// This point moved by `dist` in the direction of `target`; it may pass it.
    pub open spec fn stepped_toward(self, target: Vec2, dist: u32) -> Vec2 {
        self.moved(target.x - self.x, target.y - self.y, dist as nat)
    }

    /// This point moved by `dist` along `direction`.
    pub open spec fn advanced(self, direction: Vec2, dist: u32) -> Vec2 {
        self.moved(direction.x as int, direction.y as int, dist as nat)
    }

    /// The vector of length one unit that points from `self` to `target`,
    /// each coordinate rounded toward zero, so that it is up to two
    /// millionths short of a unit and never longer; the zero vector where
    /// the two points are the same.
    pub open spec fn direction_to(self, target: Vec2) -> Vec2 {
        (Vec2 { x: 0, y: 0 }).moved(target.x - self.x, target.y - self.y, UNIT as nat)
    }

    /// The velocity `rate` (thousandths of a unit per second in each
    /// coordinate) applied to this point for `dt` microseconds.
    pub open spec fn drifted(self, rate: Vec2, dt: u64) -> Vec2 {
        self.shifted(drift(rate.x, dt), drift(rate.y, dt))
    }

    /// Computes [`Vec2::distance_squared`].
    pub fn compute_distance_squared(self, other: Vec2) -> (r: u128)
        ensures
            r == self.distance_squared(other),
    {
        let dx: i64 = self.x as i64 - other.x as i64;
        let dy: i64 = self.y as i64 - other.y as i64;
        let ax: u128 = magnitude(dx);
        let ay: u128 = magnitude(dy);
        proof {
            lemma_square_bound(ax as int);
            lemma_square_bound(ay as int);
            assert(ax * ax == dx * dx) by (nonlinear_arith)
                requires
                    ax == dx || ax == -dx,
            ;
            assert(ay * ay == dy * dy) by (nonlinear_arith)
                requires
                    ay == dy || ay == -dy,
            ;
        }
        ax * ax + ay * ay
    }

    /// Whether `other` lies closer than `radius` millionths of a unit.
    pub fn closer_than(self, other: Vec2, radius: u32) -> (r: bool)
        ensures
            r == (self.distance_squared(other) < radius * radius),
    {
        let d: u128 = self.compute_distance_squared(other);
        proof {
            lemma_square_bound(radius as int);
        }
        let rr: u128 = (radius as u128) * (radius as u128);
        d < rr
    }

    /// Whether `other` lies farther away than `radius` millionths of a unit.
    pub fn farther_than(self, other: Vec2, radius: u32) -> (r: bool)
        ensures
            r == (self.distance_squared(other) > radius * radius),
    {
        let d: u128 = self.compute_distance_squared(other);
        proof {
            lemma_square_bound(radius as int);
        }
        let rr: u128 = (radius as u128) * (radius as u128);
        d > rr
    }

    /// Computes [`Vec2::shifted`].
    pub fn shift(self, dx: i64, dy: i64) -> (r: Vec2)
        ensures
            r == self.shifted(dx as int, dy as int),
    {
        Vec2 { x: clamp_sum(self.x, dx), y: clamp_sum(self.y, dy) }
    }

    /// Computes [`Vec2::stepped_toward`].
    pub fn step_toward(self, target: Vec2, dist: u32) -> (r: Vec2)
        ensures
            r == self.stepped_toward(target, dist),
    {
        let dx: i64 = target.x as i64 - self.x as i64;
        let dy: i64 = target.y as i64 - self.y as i64;
        self.move_along(dx, dy, dist)
    }

    /// Computes [`Vec2::advanced`].
    pub fn advance(self, direction: Vec2, dist: u32) -> (r: Vec2)
        ensures
            r == self.advanced(direction, dist),
    {
        self.move_along(direction.x as i64, direction.y as i64, dist)
    }

    /// Computes [`Vec2::direction_to`].
    pub fn compute_direction_to(self, target: Vec2) -> (r: Vec2)
        ensures
            r == self.direction_to(target),
    {
        let dx: i64 = target.x as i64 - self.x as i64;
        let dy: i64 = target.y as i64 - self.y as i64;
        Vec2::zero().move_along(dx, dy, 1_000_000)
    }

    /// Computes [`Vec2::drifted`].
    pub fn drift_by(self, rate: Vec2, dt: u64) -> (r: Vec2)
        ensures
            r == self.drifted(rate, dt),
    {
        let dx: i64 = compute_drift(rate.x, dt);
        let dy: i64 = compute_drift(rate.y, dt);
        self.shift(dx, dy)
    }

    /// Computes [`Vec2::moved`] for a vector whose components are
    /// differences of coordinates.
    fn move_along(self, dx: i64, dy: i64, dist: u32) -> (r: Vec2)
        requires
            -0x1_0000_0000 <= dx <= 0x1_0000_0000,
            -0x1_0000_0000 <= dy <= 0x1_0000_0000,
        ensures
            r == self.moved(dx as int, dy as int, dist as nat),
    {
        let ax: u128 = magnitude(dx);
        let ay: u128 = magnitude(dy);
        proof {
            lemma_square_bound(ax as int);
            lemma_square_bound(ay as int);
            assert(ax * ax == dx * dx) by (nonlinear_arith)
                requires
                    ax == dx || ax == -dx,
            ;
            assert(ay * ay == dy * dy) by (nonlinear_arith)
                requires
                    ay == dy || ay == -dy,
            ;
            assert(dy * dy + dx * dx == dx * dx + dy * dy);
        }
        let n: u128 = ax * ax + ay * ay;
        if n == 0 {
            return self;
        }
        let cx: i64 = signed_component(dx, ax, dist, n);
        let cy: i64 = signed_component(dy, ay, dist, n);
        self.shift(cx, cy)
    }
}

/// The displacement in millionths of a unit after `dt` microseconds at
/// `rate` thousandths of a unit per second; the rate carries the sign, and
/// the size is cut off as in [`step_length`].
pub open spec fn drift(rate: i32, dt: u64) -> int {
    if rate >= 0 {
        step_length(rate as u32, dt) as int
    } else {
        -(step_length((-rate) as u32, dt) as int)
    }
}

/// Computes [`drift`].
pub fn compute_drift(rate: i32, dt: u64) -> (r: i64)
    ensures
        r == drift(rate, dt),
{
    if rate >= 0 {
        compute_step_length(rate as u32, dt) as i64
    } else {
        let size: u32 = (-(rate as i64)) as u32;
        -(compute_step_length(size, dt) as i64)
    }
}

/// The square of a number of at most 33 bits fits in 66 bits.
proof fn lemma_square_bound(a: int)
    requires
        0 <= a <= 0x1_0000_0000,
    ensures
        0 <= a * a <= 0x1_0000_0000_0000_0000,
{
    assert(0 <= a * a <= 0x1_0000_0000 * 0x1_0000_0000) by (nonlinear_arith)
        requires
            0 <= a <= 0x1_0000_0000,
    ;
}

/// The absolute value of a difference of coordinates.
fn magnitude(d: i64) -> (r: u128)
    requires
        -0x1_0000_0000 <= d <= 0x1_0000_0000,
    ensures
        r == if d >= 0 { d as int } else { -d },
        r <= 0x1_0000_0000,
{
    if d >= 0 {
        d as u128
    } else {
        (-d) as u128
    }
}

/// `a + b` kept inside the range of a coordinate.
fn clamp_sum(a: i32, b: i64) -> (r: i32)
    ensures
        r == clamp_coord(a + b),
{
    let sum: i128 = a as i128 + b as i128;
    if sum < i32::MIN as i128 {
        i32::MIN
    } else if sum > i32::MAX as i128 {
        i32::MAX
    } else {
        sum as i32
    }
}

/// One component of a step: see [`toward`].
fn signed_component(d: i64, size: u128, dist: u32, n: u128) -> (r: i64)
    requires
        -0x1_0000_0000 <= d <= 0x1_0000_0000,
        size == if d >= 0 { d as int } else { -d },
        size * size <= n,
        n > 0,
    ensures
        r == if d >= 0 {
            component(d as nat, dist as nat, n as nat) as int
        } else {
            -(component((-d) as nat, dist as nat, n as nat) as int)
        },
        -(dist as int) <= r <= dist,
{
    assert(size * dist <= 0xffff_ffff_0000_0000) by (nonlinear_arith)
        requires
            0 <= size <= 0x1_0000_0000,
            0 <= dist <= 0xffff_ffff,
    ;
    let product: u128 = size * (dist as u128);
    assert(product * product <= 0xffff_ffff_0000_0000 * 0xffff_ffff_0000_0000)
        by (nonlinear_arith)
        requires
            0 <= product <= 0xffff_ffff_0000_0000,
    ;
    let square: u128 = product * product;
    let root: u64 = isqrt(square / n);
    proof {
        lemma_component(size as nat, dist as nat, n as nat);
    }
    if d >= 0 {
        root as i64
    } else {
        -(root as i64)
    }
}

} // verus!
