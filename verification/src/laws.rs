//! The laws of the simulation, stated once over the mathematical model and
//! proved for every input: the closed form of a particle's trajectory under
//! gravity, the idempotence of deactivation, and the strictness of the
//! boundary cull.

use vstd::prelude::*;

use crate::particle::ParticleModel;
use crate::pool::Bounds;
use crate::pool::out_of_bounds;
use crate::pool::tick_step;

verus! {

/// The particle after `n` physics steps under gravity `g`.
pub open spec fn advanced_n(p: ParticleModel, g: int, n: nat) -> ParticleModel
    decreases n,
{
    if n == 0 {
        p
    } else {
        advanced_n(p, g, (n - 1) as nat).advanced(g)
    }
}

/// The total vertical drift of `n` steps from initial vertical velocity
/// `vy0`: the sum over the first `n` steps of `vy0 + i * g`, step `i`
/// moving by the velocity gravity has already acted on `i` times.
pub open spec fn drift_sum(vy0: int, g: int, n: nat) -> int
    decreases n,
{
    if n == 0 {
        0
    } else {
        drift_sum(vy0, g, (n - 1) as nat) + (vy0 + n * g)
    }
}

/// The particle after `n` whole pool ticks against rectangle `b`: each tick
/// advances an active particle and then culls it by its new position.
pub open spec fn ticked_n(p: ParticleModel, g: int, b: Bounds, n: nat) -> ParticleModel
    decreases n,
{
    if n == 0 {
        p
    } else {
        tick_step(ticked_n(p, g, b, (n - 1) as nat), g, b)
    }
}

/// Trajectory law: after `n` physics steps under gravity `g`, the vertical
/// velocity has gained exactly `n * g`, the horizontal velocity is untouched
/// (there is no horizontal force), the horizontal position has moved by
/// `n` times the horizontal velocity, and the vertical position by the sum
/// of the per-step velocities `vy + i * g`. Radius, colour and the active
/// flag never change under advancement.
pub proof fn lemma_trajectory(p: ParticleModel, g: int, n: nat)
    ensures
        advanced_n(p, g, n).vy == p.vy + n * g,
        advanced_n(p, g, n).vx == p.vx,
        advanced_n(p, g, n).x == p.x + n * p.vx,
        advanced_n(p, g, n).y == p.y + drift_sum(p.vy, g, n),
        advanced_n(p, g, n).radius == p.radius,
        advanced_n(p, g, n).color == p.color,
        advanced_n(p, g, n).active == p.active,
    decreases n,
{
    if n == 0 {
        assert(n * g == 0) by (nonlinear_arith)
            requires n == 0;
        assert(n * p.vx == 0) by (nonlinear_arith)
            requires n == 0;
    } else {
        let m = (n - 1) as nat;
        lemma_trajectory(p, g, m);
        assert(m * g + g == n * g) by (nonlinear_arith)
            requires m + 1 == n;
        assert(m * p.vx + p.vx == n * p.vx) by (nonlinear_arith)
            requires m + 1 == n;
    }
}

/// The drift sum in closed form: twice the drift of `n` steps is twice
/// `n * vy0` plus `g * n * (n + 1)` — the arithmetic series summed.
pub proof fn lemma_drift_sum_closed(vy0: int, g: int, n: nat)
    ensures
        2 * drift_sum(vy0, g, n) == 2 * n * vy0 + g * n * (n + 1),
    decreases n,
{
    if n == 0 {
        assert(2 * n * vy0 == 0 && g * n * (n + 1) == 0) by (nonlinear_arith)
            requires n == 0;
    } else {
        let m = (n - 1) as nat;
        lemma_drift_sum_closed(vy0, g, m);
        assert(2 * m * vy0 + g * m * (m + 1) + 2 * (vy0 + n * g) == 2 * n * vy0 + g * n * (n + 1))
            by (nonlinear_arith)
            requires m + 1 == n;
    }
}

/// A particle that stays inside the rectangle after each of `n` ticks is
/// never culled: the `n` ticks act on it exactly as `n` bare physics steps,
/// and it remains active throughout.
pub proof fn lemma_ticks_in_bounds(p: ParticleModel, g: int, b: Bounds, n: nat)
    requires
        p.active,
        forall|k: nat| 1 <= k <= n ==> !out_of_bounds(#[trigger] advanced_n(p, g, k), b),
    ensures
        ticked_n(p, g, b, n) == advanced_n(p, g, n),
        ticked_n(p, g, b, n).active,
    decreases n,
{
    if n > 0 {
        let m = (n - 1) as nat;
        lemma_ticks_in_bounds(p, g, b, m);
        assert(!out_of_bounds(advanced_n(p, g, n), b));
    }
}

/// Deactivation is idempotent: a second deactivation leaves the particle
/// exactly as the first left it.
pub proof fn lemma_deactivate_idempotent(p: ParticleModel)
    ensures
        p.deactivated().deactivated() == p.deactivated(),
{
}

/// Boundary culling is strict: a tick that carries a particle any positive
/// distance past the right edge deactivates it on that very tick, while one
/// that lands it exactly on the left edge (and not below the bottom) leaves
/// it active — the checks exclude the edges themselves.
pub proof fn lemma_boundary_culling(p: ParticleModel, g: int, b: Bounds, eps: int)
    requires
        p.active,
        b.wf(),
        eps > 0,
    ensures
        p.advanced(g).x == b.width + eps ==> tick_step(p, g, b) == p.advanced(g).deactivated(),
        p.advanced(g).x == 0 && p.advanced(g).y <= b.height ==> tick_step(p, g, b) == p.advanced(g)
            && tick_step(p, g, b).active,
{
}

} // verus!
