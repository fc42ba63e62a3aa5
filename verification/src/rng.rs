//! The source of randomized spawn parameters: colour channels, velocity
//! components and radii, each uniform over a stated fixed-point range. The
//! generator itself is the process-wide thread-local one of the `rand` crate;
//! nothing is promised of a drawn value beyond its range, so every caller is
//! verified for every value the range admits.

use vstd::prelude::*;

use crate::particle::Color;
use crate::particle::SCALE;

verus! {

#[verifier::external_type_specification]
#[verifier::external_body]
pub struct ExThreadRng(rand::rngs::ThreadRng);

/// Relies on rand::thread_rng: a handle to the thread-local generator,
/// seeded once per thread by the system.
pub assume_specification[ rand::thread_rng ]() -> (r: rand::rngs::ThreadRng)
;

/// Relies on rand::Rng::gen_range over `lo..hi`: a value uniform in
/// `[lo, hi)`; the call panics on an empty range, so one is never handed
/// to it.
#[verifier::external_body]
fn gen_in_range(rng: &mut rand::rngs::ThreadRng, lo: i64, hi: i64) -> (r: i64)
    requires
        lo < hi,
    ensures
        lo <= r < hi,
{
    rand::Rng::gen_range(rng, lo..hi)
}

/// The provider of randomized parameters, owning its generator handle.
pub struct RngProvider {
    pub rng: rand::rngs::ThreadRng,
}

impl RngProvider {
    /// A provider over the process-wide thread-local generator.
    pub fn new() -> (r: RngProvider) {
        RngProvider { rng: rand::thread_rng() }
    }

    /// A colour with red, green and blue each uniform in `[0, SCALE)` — that
    /// is, in `[0, 1)` units — and the alpha fixed at a full channel.
    pub fn next_color(&mut self) -> (c: Color)
        ensures
            0 <= c.red < SCALE,
            0 <= c.green < SCALE,
            0 <= c.blue < SCALE,
            c.alpha == SCALE,
    {
        let red = gen_in_range(&mut self.rng, 0, SCALE);
        let green = gen_in_range(&mut self.rng, 0, SCALE);
        let blue = gen_in_range(&mut self.rng, 0, SCALE);
        Color { red, green, blue, alpha: SCALE }
    }

    /// A velocity with the horizontal component uniform in five units either
    /// way and the vertical uniform in `[-5, 2)` units: the asymmetry biases
    /// fresh particles upward, letting gravity dominate visually.
    pub fn next_velocity(&mut self) -> (v: (i64, i64))
        ensures
            -5 * SCALE <= v.0 < 5 * SCALE,
            -5 * SCALE <= v.1 < 2 * SCALE,
    {
        let vx = gen_in_range(&mut self.rng, -5 * SCALE, 5 * SCALE);
        let vy = gen_in_range(&mut self.rng, -5 * SCALE, 2 * SCALE);
        (vx, vy)
    }

    /// A radius uniform in `[5, 15)` units.
    pub fn next_radius(&mut self) -> (r: i64)
        ensures
            5 * SCALE <= r < 15 * SCALE,
    {
        gen_in_range(&mut self.rng, 5 * SCALE, 15 * SCALE)
    }
}

} // verus!
