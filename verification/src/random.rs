//! Random draws. The generator is the caller's; the rules only say from
//! which range each number comes.

use crate::fixed::{Vec2, UNIT};
use turborand::TurboRand;
use turborand::rng::Rng;
use vstd::prelude::*;

verus! {

/// The generator `turborand::rng::Rng`. Trusted as a type only: the rules
/// hand it on to the draws and see nothing inside it.
#[verifier::external_type_specification]
#[verifier::external_body]
pub struct ExRng(Rng);

/// Calls `TurboRand::i32` with the closed range from `low` to `high`.
/// Trusted: the number returned lies in that range. The call panics on an
/// empty range, which `requires` leaves out.
#[verifier::external_body]
pub(crate) fn random_i32(rng: &Rng, low: i32, high: i32) -> (r: i32)
    requires
        low <= high,
    ensures
        low <= r <= high,
{
    rng.i32(low..=high)
}

/// Calls `TurboRand::usize` with the range from zero up to, and without,
/// `len`. Trusted: the number returned lies below `len`. The call panics on
/// an empty range, which `requires` leaves out.
#[verifier::external_body]
pub(crate) fn random_usize(rng: &Rng, len: usize) -> (r: usize)
    requires
        len > 0,
    ensures
        r < len,
{
    rng.usize(..len)
}

/// Whether `v` lies between minus one and one, as a count of millionths.
pub open spec fn is_signed_unit(v: i32) -> bool {
    -UNIT <= v <= UNIT
}

/// Whether `v` is at least zero and below one, as a count of millionths.
pub open spec fn is_fraction(v: i32) -> bool {
    0 <= v < UNIT
}

/// The random part of a placement on a ring: a direction, of which only
/// the angle counts, and a small offset.
#[derive(Clone, Copy, PartialEq, Eq, Structural, Debug)]
pub struct Scatter {
    pub direction: Vec2,
    pub jitter: Vec2,
}

impl Scatter {
    /// Whether all four numbers lie between minus one and one.
    pub open spec fn in_range(self) -> bool {
        &&& is_signed_unit(self.direction.x)
        &&& is_signed_unit(self.direction.y)
        &&& is_signed_unit(self.jitter.x)
        &&& is_signed_unit(self.jitter.y)
    }
}

/// Draws a number between minus one and one.
pub fn draw_signed_unit(rng: &Rng) -> (r: i32)
    ensures
        is_signed_unit(r),
{
    random_i32(rng, -UNIT, UNIT)
}

/// Draws a number that is at least zero and below one.
pub fn draw_fraction(rng: &Rng) -> (r: i32)
    ensures
        is_fraction(r),
{
    random_i32(rng, 0, UNIT - 1)
}

/// Draws an index below `len`; `None` where `len` is zero.
pub fn draw_index(rng: &Rng, len: usize) -> (r: Option<usize>)
    ensures
        len == 0 <==> r.is_none(),
        r matches Some(i) ==> i < len,
{
    if len == 0 {
        None
    } else {
        Some(random_usize(rng, len))
    }
}

/// Draws the random part of one placement.
pub fn draw_scatter(rng: &Rng) -> (r: Scatter)
    ensures
        r.in_range(),
{
    let dx: i32 = draw_signed_unit(rng);
    let dy: i32 = draw_signed_unit(rng);
    let jx: i32 = draw_signed_unit(rng);
    let jy: i32 = draw_signed_unit(rng);
    Scatter { direction: Vec2::new(dx, dy), jitter: Vec2::new(jx, jy) }
}

/// Draws the random parts of `count` placements.
pub fn draw_scatters(rng: &Rng, count: usize) -> (r: Vec<Scatter>)
    ensures
        r@.len() == count,
        forall|i: int| 0 <= i < r@.len() ==> (#[trigger] r@[i]).in_range(),
{
    let mut list: Vec<Scatter> = Vec::new();
    while list.len() < count
        invariant
            list@.len() <= count,
            forall|i: int| 0 <= i < list@.len() ==> (#[trigger] list@[i]).in_range(),
        decreases count - list@.len(),
    {
        let scatter = draw_scatter(rng);
        list.push(scatter);
    }
    list
}

/// Draws `count` numbers that are at least zero and below one.
pub fn draw_fractions(rng: &Rng, count: usize) -> (r: Vec<i32>)
    ensures
        r@.len() == count,
        forall|i: int| 0 <= i < r@.len() ==> is_fraction(#[trigger] r@[i]),
{
    let mut list: Vec<i32> = Vec::new();
    while list.len() < count
        invariant
            list@.len() <= count,
            forall|i: int| 0 <= i < list@.len() ==> is_fraction(#[trigger] list@[i]),
        decreases count - list@.len(),
    {
        let roll: i32 = draw_fraction(rng);
        list.push(roll);
    }
    list
}

/// `v` times `factor` millionths, rounded toward zero.
pub open spec fn stretched(v: i32, factor: u32) -> int {
    if v >= 0 {
        (v * factor) / (UNIT as int)
    } else {
        -(((-v) * factor) / (UNIT as int))
    }
}

/// The place that `scatter` picks around `center`: `radius` away in the
/// drawn direction (to the right where the drawn direction is the zero
/// vector), then off by the jitter times `spread` millionths.
pub open spec fn scattered(center: Vec2, scatter: Scatter, radius: u32, spread: u32) -> Vec2 {
    let direction = if scatter.direction == (Vec2 { x: 0, y: 0 }) {
        Vec2 { x: UNIT, y: 0 }
    } else {
        scatter.direction
    };
    center.advanced(direction, radius).shifted(
        stretched(scatter.jitter.x, spread),
        stretched(scatter.jitter.y, spread),
    )
}

/// The stretch of a number between minus one and one stays within the factor.
pub proof fn lemma_stretched_bound(v: i32, factor: u32)
    requires
        is_signed_unit(v),
    ensures
        -(factor as int) <= stretched(v, factor) <= factor,
{
    let size: int = if v >= 0 { v as int } else { -v };
    assert(size * factor <= 1_000_000 * factor) by (nonlinear_arith)
        requires
            0 <= size <= 1_000_000,
            0 <= factor,
    ;
    assert(0 <= size * factor) by (nonlinear_arith)
        requires
            0 <= size,
            0 <= factor,
    ;
    vstd::arithmetic::div_mod::lemma_div_is_ordered(size * factor, 1_000_000 * factor, 1_000_000);
    vstd::arithmetic::div_mod::lemma_div_pos_is_pos(size * factor, 1_000_000);
}

/// Computes [`stretched`].
pub fn stretch(v: i32, factor: u32) -> (r: i64)
    ensures
        r == stretched(v, factor),
        -0x1000_0000_0000 <= r <= 0x1000_0000_0000,
{
    let size: u64 = if v >= 0 {
        v as u64
    } else {
        (-(v as i64)) as u64
    };
    assert(size * factor <= 0x8000_0000 * 0xffff_ffff) by (nonlinear_arith)
        requires
            0 <= size <= 0x8000_0000,
            0 <= factor <= 0xffff_ffff,
    ;
    let product: u64 = size * (factor as u64);
    let quotient: u64 = product / 1_000_000;
    if v >= 0 {
        quotient as i64
    } else {
        -(quotient as i64)
    }
}

/// Computes [`scattered`].
pub fn scatter_around(center: Vec2, scatter: Scatter, radius: u32, spread: u32) -> (r: Vec2)
    ensures
        r == scattered(center, scatter, radius, spread),
{
    let direction = if scatter.direction.x == 0 && scatter.direction.y == 0 {
        Vec2::new(UNIT, 0)
    } else {
        scatter.direction
    };
    let on_ring = center.advance(direction, radius);
    on_ring.shift(stretch(scatter.jitter.x, spread), stretch(scatter.jitter.y, spread))
}

} // verus!
