//! The random outcomes that one decision may consume, drawn ahead of it.
//!
//! Decisions themselves are functions of their arguments. Everything that
//! is left to chance is drawn here, from a generator that the caller owns
//! and may seed, and handed to the decision as a [`Chance`].

use crate::geometry::{scale, spec_scale, Point, UNIT};
use rand::rngs::StdRng;
use rand::Rng;
use vstd::prelude::*;

verus! {

/// `rand::rngs::StdRng`, carried as it is: nothing is known of its state.
#[verifier::external_type_specification]
#[verifier::external_body]
pub struct ExStdRng(StdRng);

/// Calls `rand::Rng::gen_range(0, bound)` on a 64-bit unsigned integer.
/// That call panics unless the lower end is below the upper one, and hands
/// back the lower end plus a value under the width of the range: here, a
/// number under `bound`. Nothing is claimed of which one.
#[verifier::external_body]
fn draw_below(rng: &mut StdRng, bound: u64) -> (r: u64)
    requires
        bound > 0,
    ensures
        r < bound,
{
    rng.gen_range(0, bound)
}

/// Calls `rand::Rng::gen_ratio`, which panics on a zero denominator or a
/// numerator above it, always answers `true` where the two are equal and
/// always `false` where the numerator is zero. Nothing else is claimed.
#[verifier::external_body]
fn draw_ratio(rng: &mut StdRng, numerator: u32, denominator: u32) -> (hit: bool)
    requires
        0 < denominator,
        numerator <= denominator,
    ensures
        numerator == denominator ==> hit,
        numerator == 0 ==> !hit,
{
    rng.gen_ratio(numerator, denominator)
}

/// Of five tag attempts, so many succeed on average.
pub const TAG_HITS: u32 = 4;

/// The attempts that `TAG_HITS` is counted in.
pub const TAG_TRIES: u32 = 5;

/// A point of the unit disc, in thousandths: the direction and the share
/// of its speed that an agent moves by when it moves at random.
#[derive(Clone, Copy, Debug, PartialEq, Eq, Structural)]
pub struct Wander {
    pub x: i32,
    pub y: i32,
}

/// The directions that a random move may take: points of the unit circle,
/// in thousandths. The caller computes them once.
#[derive(Clone, Debug)]
pub struct Compass {
    pub headings: Vec<Point>,
}

/// What one decision may consume of chance.
#[derive(Clone, Copy, Debug, PartialEq, Eq, Structural)]
pub struct Chance {
    /// Where a random move goes.
    pub wander: Wander,
    /// Whether a tag attempt lands.
    pub hit: bool,
    /// Stands in for a horizontal offset of exactly zero.
    pub jitter_x: i32,
    /// Stands in for a vertical offset of exactly zero.
    pub jitter_y: i32,
}

/// The radius that two draws `u1` and `u2` from `0..UNIT` give: their sum,
/// folded back at one unit. Its density grows with the radius, which
/// spreads the points evenly over the disc.
pub open spec fn spec_radius(u1: int, u2: int) -> int {
    if u1 + u2 <= UNIT {
        u1 + u2
    } else {
        2 * UNIT - (u1 + u2)
    }
}

/// The point of the unit disc at `spec_radius(u1, u2)` along `heading`.
pub open spec fn spec_wander(heading: Point, u1: int, u2: int) -> Wander {
    Wander {
        x: spec_scale(heading.x as int, spec_radius(u1, u2)) as i32,
        y: spec_scale(heading.y as int, spec_radius(u1, u2)) as i32,
    }
}

/// Whether `wander` can be drawn from the given headings: it lies along
/// one of them, at a radius that two draws from `0..UNIT` give. Without
/// headings only the move that stays can be drawn.
pub open spec fn wander_from(wander: Wander, headings: Seq<Point>) -> bool {
    if headings.len() == 0 {
        wander == (Wander { x: 0, y: 0 })
    } else {
        exists|k: int, u1: int, u2: int|
            0 <= k < headings.len() && 0 <= u1 < UNIT && 0 <= u2 < UNIT && wander == #[trigger] spec_wander(
                headings[k],
                u1,
                u2,
            )
    }
}

impl Chance {
    /// Each jitter is positive and under one unit.
    pub open spec fn wf(&self) -> bool {
        &&& 0 < self.jitter_x < UNIT
        &&& 0 < self.jitter_y < UNIT
    }

    /// Whether this can be drawn with the given headings.
    pub open spec fn drawn_from(&self, headings: Seq<Point>) -> bool {
        self.wf() && wander_from(self.wander, headings)
    }
}

/// Builds the point of the unit disc that a heading and two draws give.
pub fn wander_along(heading: Point, u1: u32, u2: u32) -> (w: Wander)
    requires
        u1 < UNIT,
        u2 < UNIT,
    ensures
        w == spec_wander(heading, u1 as int, u2 as int),
{
    let u: u32 = u1 + u2;
    let r: u32 = if u <= UNIT as u32 {
        u
    } else {
        2 * (UNIT as u32) - u
    };
    let x: i64 = scale(heading.x, r);
    let y: i64 = scale(heading.y, r);
    Wander { x: x as i32, y: y as i32 }
}

impl Compass {
    /// Draws where a random move goes: a heading of the compass, all alike
    /// likely, at a radius of two draws. Without headings the move stays
    /// where it is.
    pub fn draw_wander(&self, rng: &mut StdRng) -> (w: Wander)
        ensures
            wander_from(w, self.headings@),
    {
        let n: usize = self.headings.len();
        if n == 0 {
            return Wander { x: 0, y: 0 };
        }
        let k: usize = draw_below(rng, n as u64) as usize;
        let u1: u32 = draw_below(rng, UNIT as u64) as u32;
        let u2: u32 = draw_below(rng, UNIT as u64) as u32;
        wander_along(self.headings[k], u1, u2)
    }
}

impl Chance {
    /// Draws what one decision may consume: a random move from `compass`,
    /// whether a tag lands (four times in five), and two jitters.
    pub fn draw(rng: &mut StdRng, compass: &Compass) -> (chance: Chance)
        ensures
            chance.drawn_from(compass.headings@),
    {
        let wander = compass.draw_wander(rng);
        let hit = draw_ratio(rng, TAG_HITS, TAG_TRIES);
        let jitter_x: i32 = (1 + draw_below(rng, (UNIT - 1) as u64)) as i32;
        let jitter_y: i32 = (1 + draw_below(rng, (UNIT - 1) as u64)) as i32;
        Chance { wander, hit, jitter_x, jitter_y }
    }
}

/// Draws a place on a field of the given size, each grid point alike likely.
pub fn draw_point(rng: &mut StdRng, width: i32, height: i32) -> (p: Point)
    requires
        width > 0,
        height > 0,
    ensures
        0 <= p.x < width,
        0 <= p.y < height,
{
    let x: i32 = draw_below(rng, width as u64) as i32;
    let y: i32 = draw_below(rng, height as u64) as i32;
    Point { x, y }
}

/// Draws an index from `low` up to, not including, `high`.
pub fn draw_index(rng: &mut StdRng, low: usize, high: usize) -> (i: usize)
    requires
        low < high,
    ensures
        low <= i < high,
{
    low + draw_below(rng, (high - low) as u64) as usize
}

} // verus!
