//! A single simulated circle: position, velocity, radius, colour and an
//! active flag. Inactive particles are dormant slots kept by the pool for
//! reuse; their geometry is never advanced and never rendered.

use vstd::prelude::*;

verus! {

/// Fixed-point steps per simulation unit: all lengths, velocities and colour
/// channels are integers in thousandths of a unit.
pub const SCALE: i64 = 1000;

/// Gravity of a tenth of a unit per tick squared, in fixed-point steps.
pub const GRAVITY: i64 = 100;

/// An RGBA colour; each channel lies in `[0, SCALE]`, where `SCALE` stands
/// for a full channel (an alpha of `SCALE` is fully opaque).
#[derive(Clone, Copy, PartialEq, Eq, Structural, Debug)]
pub struct Color {
    pub red: i64,
    pub green: i64,
    pub blue: i64,
    pub alpha: i64,
}

/// Every channel of a well-formed colour lies in `[0, SCALE]`.
pub open spec fn color_wf(c: Color) -> bool {
    &&& 0 <= c.red <= SCALE
    &&& 0 <= c.green <= SCALE
    &&& 0 <= c.blue <= SCALE
    &&& 0 <= c.alpha <= SCALE
}

/// The mathematical model of a particle: unbounded integers, so that the
/// physics can be stated without regard to the machine word.
pub struct ParticleModel {
    pub radius: int,
    pub x: int,
    pub y: int,
    pub vx: int,
    pub vy: int,
    pub color: Color,
    pub active: bool,
}

impl ParticleModel {
    /// A well-formed particle has a positive radius and channels in range.
    pub open spec fn wf(self) -> bool {
        self.radius > 0 && color_wf(self.color)
    }

    /// One physics step: gravity pulls the vertical velocity down, then the
    /// position moves by the updated velocity.
    pub open spec fn advanced(self, g: int) -> ParticleModel {
        ParticleModel {
            vy: self.vy + g,
            x: self.x + self.vx,
            y: self.y + self.vy + g,
            ..self
        }
    }

    /// The same particle as a dormant slot: only the flag changes.
    pub open spec fn deactivated(self) -> ParticleModel {
        ParticleModel { active: false, ..self }
    }

    /// One physics step stays within the machine word.
    pub open spec fn can_advance(self, g: int) -> bool {
        &&& i64::MIN <= self.vy + g <= i64::MAX
        &&& i64::MIN <= self.x + self.vx <= i64::MAX
        &&& i64::MIN <= self.y + self.vy + g <= i64::MAX
    }

    /// The particle a spawn request with these parameters produces.
    pub open spec fn fresh(radius: int, x: int, y: int, vx: int, vy: int, color: Color) -> ParticleModel {
        ParticleModel { radius, x, y, vx, vy, color, active: true }
    }
}

/// A particle as the machine holds it, in fixed-point steps.
#[derive(Clone, Copy, PartialEq, Eq, Structural, Debug)]
pub struct Particle {
    pub radius: i64,
    pub x: i64,
    pub y: i64,
    pub vx: i64,
    pub vy: i64,
    pub color: Color,
    pub active: bool,
}

impl View for Particle {
    type V = ParticleModel;

    open spec fn view(&self) -> ParticleModel {
        ParticleModel {
            radius: self.radius as int,
            x: self.x as int,
            y: self.y as int,
            vx: self.vx as int,
            vy: self.vy as int,
            color: self.color,
            active: self.active,
        }
    }
}

impl Particle {
    /// A newly created particle is active and carries exactly the requested
    /// parameters.
    pub fn new(radius: i64, x: i64, y: i64, vel: (i64, i64), color: Color) -> (p: Particle)
        ensures
            p@ == ParticleModel::fresh(radius as int, x as int, y as int, vel.0 as int, vel.1 as int, color),
    {
        Particle { radius, x, y, vx: vel.0, vy: vel.1, color, active: true }
    }

    /// One tick of physics: the vertical velocity gains `gravity`, then the
    /// position moves by the updated velocity. Only ever called on an active
    /// particle; the flag, radius and colour are untouched.
    pub fn advance(&mut self, gravity: i64)
        requires
            old(self)@.active,
            old(self)@.can_advance(gravity as int),
        ensures
            final(self)@ == old(self)@.advanced(gravity as int),
    {
        self.vy = self.vy + gravity;
        self.x = self.x + self.vx;
        self.y = self.y + self.vy;
    }

    /// Reuse of this slot: every field is overwritten and the particle is
    /// active again. Allocates nothing.
    pub fn reset(&mut self, radius: i64, x: i64, y: i64, vel: (i64, i64), color: Color)
        ensures
            final(self)@ == ParticleModel::fresh(radius as int, x as int, y as int, vel.0 as int, vel.1 as int, color),
    {
        self.radius = radius;
        self.x = x;
        self.y = y;
        self.vx = vel.0;
        self.vy = vel.1;
        self.color = color;
        self.active = true;
    }

    /// Turns the particle into a dormant slot; every other field is kept, so
    /// doing it twice is the same as doing it once.
    pub fn deactivate(&mut self)
        ensures
            final(self)@ == old(self)@.deactivated(),
    {
        self.active = false;
    }
}

} // verus!
