//! The simulation controller: the single owner of one randomized-parameter
//! provider, one particle pool and the most recently supplied bounds. The
//! surrounding event loop calls `tick` once per frame and `spawn_burst` on a
//! pointer release; resizes arrive through `on_bounds_changed`.

use vstd::prelude::*;

use crate::particle::GRAVITY;
use crate::particle::ParticleModel;
use crate::particle::SCALE;
use crate::pool::Bounds;
use crate::pool::Pool;
use crate::pool::inact_before;
use crate::pool::inact_count;
use crate::pool::lemma_inactive_counts;
use crate::pool::lemma_inactive_index_unique;
use crate::pool::lemma_nth_inactive;
use crate::pool::tick_step;
use crate::rng::RngProvider;

verus! {

/// How many particles one pointer release spawns.
pub const BURST_SIZE: usize = 5;

/// What holds of every slot a burst at `(x, y)` fills: active, at the spawn
/// point, with an independently drawn radius of `[5, 15)` units, a horizontal
/// velocity of five units either way, a vertical velocity of `[-5, 2)` units,
/// and a fully opaque colour whose channels lie below a full channel.
pub open spec fn spawned_at(p: ParticleModel, x: int, y: int) -> bool {
    &&& p.active
    &&& p.x == x
    &&& p.y == y
    &&& 5 * SCALE <= p.radius < 15 * SCALE
    &&& -5 * SCALE <= p.vx < 5 * SCALE
    &&& -5 * SCALE <= p.vy < 2 * SCALE
    &&& 0 <= p.color.red < SCALE
    &&& 0 <= p.color.green < SCALE
    &&& 0 <= p.color.blue < SCALE
    &&& p.color.alpha == SCALE
}

/// The rectangle as the controller adopts it: a malformed extent — zero or
/// negative — is clamped to the smallest positive one rather than reported,
/// since the frame loop has no channel for an error.
pub open spec fn clamped(b: Bounds) -> Bounds {
    Bounds {
        width: if b.width > 0 { b.width } else { 1 },
        height: if b.height > 0 { b.height } else { 1 },
    }
}

/// The top-level state: one generator, one pool, the cached bounds.
pub struct Sim {
    pub rng: RngProvider,
    pub pool: Pool,
    pub bounds: Bounds,
}

impl Sim {
    /// A fresh controller: an empty pool and the startup rectangle, clamped
    /// where malformed.
    pub fn new(bounds: Bounds) -> (s: Sim)
        ensures
            s.pool@.len() == 0,
            s.pool.wf(),
            s.bounds == clamped(bounds),
            s.bounds.wf(),
    {
        let width = if bounds.width > 0 { bounds.width } else { 1 };
        let height = if bounds.height > 0 { bounds.height } else { 1 };
        Sim { rng: RngProvider::new(), pool: Pool::new(), bounds: Bounds { width, height } }
    }

    /// One frame: forwards to the pool's tick with the fixed gravity and the
    /// cached rectangle.
    pub fn tick(&mut self)
        requires
            forall|i: int|
                0 <= i < old(self).pool@.len() && old(self).pool@[i].active
                    ==> (#[trigger] old(self).pool@[i]).can_advance(GRAVITY as int),
        ensures
            final(self).pool@.len() == old(self).pool@.len(),
            forall|i: int|
                0 <= i < old(self).pool@.len()
                    ==> final(self).pool@[i] == tick_step(
                    #[trigger] old(self).pool@[i],
                    GRAVITY as int,
                    old(self).bounds,
                ),
            final(self).bounds == old(self).bounds,
            old(self).pool.wf() ==> final(self).pool.wf(),
    {
        let bounds = self.bounds;
        self.pool.tick(GRAVITY, &bounds);
    }

    /// Adopts a new rectangle for subsequent ticks; a malformed one is
    /// ignored, and already-dormant slots are never revisited either way.
    pub fn on_bounds_changed(&mut self, b: Bounds)
        ensures
            final(self).bounds == if b.wf() { b } else { old(self).bounds },
            final(self).pool == old(self).pool,
    {
        if b.width > 0 && b.height > 0 {
            self.bounds = b;
        }
    }

    /// One pointer release: draws `BURST_SIZE` independent parameter sets and
    /// issues one spawn request per set, all at `(x, y)`. The requests
    /// consume the dormant slots in allocation order, lowest index first;
    /// only once none is left does the pool grow, by one slot per remaining
    /// request. Slots that were active stay exactly as they were.
    pub fn spawn_burst(&mut self, x: i64, y: i64)
        ensures
            ({
                let s0 = old(self).pool@;
                let s1 = final(self).pool@;
                &&& s1.len() == if inact_count(s0) >= BURST_SIZE {
                    s0.len() as int
                } else {
                    s0.len() + BURST_SIZE - inact_count(s0)
                }
                &&& forall|i: int|
                    0 <= i < s0.len() && s0[i].active ==> s1[i] == #[trigger] s0[i]
                &&& forall|i: int|
                    0 <= i < s0.len() && !s0[i].active && inact_before(s0, i) < BURST_SIZE
                        ==> spawned_at(#[trigger] s1[i], x as int, y as int)
                &&& forall|i: int|
                    0 <= i < s0.len() && !s0[i].active && inact_before(s0, i) >= BURST_SIZE
                        ==> s1[i] == #[trigger] s0[i]
                &&& forall|i: int|
                    s0.len() <= i < s1.len() ==> spawned_at(#[trigger] s1[i], x as int, y as int)
            }),
            final(self).bounds == old(self).bounds,
            old(self).pool.wf() ==> final(self).pool.wf(),
    {
        let ghost s0 = old(self).pool@;
        let mut t: usize = 0;
        while t < BURST_SIZE
            invariant
                t <= BURST_SIZE,
                self.bounds == old(self).bounds,
                ({
                    let cur = self.pool@;
                    &&& cur.len() == if inact_count(s0) >= t {
                        s0.len() as int
                    } else {
                        s0.len() + t - inact_count(s0)
                    }
                    &&& forall|i: int|
                        0 <= i < s0.len() && s0[i].active ==> cur[i] == #[trigger] s0[i]
                    &&& forall|i: int|
                        0 <= i < s0.len() && !s0[i].active && inact_before(s0, i) < t
                            ==> spawned_at(#[trigger] cur[i], x as int, y as int)
                    &&& forall|i: int|
                        0 <= i < s0.len() && !s0[i].active && inact_before(s0, i) >= t
                            ==> cur[i] == #[trigger] s0[i]
                    &&& forall|i: int|
                        s0.len() <= i < cur.len() ==> spawned_at(#[trigger] cur[i], x as int, y as int)
                }),
            decreases BURST_SIZE - t,
        {
            let color = self.rng.next_color();
            let vel = self.rng.next_velocity();
            let radius = self.rng.next_radius();
            let ghost cur = self.pool@;
            let idx = self.pool.spawn_or_reuse(radius, x, y, vel, color);
            proof {
                let next = self.pool@;
                let xi = x as int;
                let yi = y as int;
                assert(spawned_at(next[idx as int], xi, yi));
                if inact_count(cur) > 0 {
                    // A dormant slot was reused: `idx` is the dormant slot of
                    // the pre-burst pool that exactly `t` dormant ones precede.
                    assert(idx < s0.len()) by {
                        if idx >= s0.len() {
                            assert(spawned_at(cur[idx as int], xi, yi));
                        }
                    }
                    assert(!s0[idx as int].active);
                    assert(inact_before(s0, idx as int) >= t) by {
                        if inact_before(s0, idx as int) < t {
                            assert(spawned_at(cur[idx as int], xi, yi));
                        }
                    }
                    assert(inact_before(s0, idx as int) <= t) by {
                        if inact_before(s0, idx as int) > t {
                            lemma_nth_inactive(s0, idx as int, t as nat);
                            let j = choose|j: int|
                                0 <= j < idx && !s0[j].active && inact_before(s0, j) == t;
                            assert(cur[j] == s0[j]);
                        }
                    }
                    lemma_inactive_counts(s0, idx as int);
                    assert(inact_count(s0) >= t + 1);
                    assert forall|i: int|
                        0 <= i < s0.len() && !s0[i].active && inact_before(s0, i) < t + 1
                            implies spawned_at(#[trigger] next[i], xi, yi) by {
                        if i != idx {
                            if inact_before(s0, i) == t {
                                if i < idx {
                                    lemma_inactive_index_unique(s0, i, idx as int);
                                } else {
                                    lemma_inactive_index_unique(s0, idx as int, i);
                                }
                            }
                            assert(spawned_at(cur[i], xi, yi));
                            assert(next[i] == cur[i]);
                        }
                    }
                    assert forall|i: int|
                        0 <= i < s0.len() && !s0[i].active && inact_before(s0, i) >= t + 1
                            implies next[i] == #[trigger] s0[i] by {
                        assert(i != idx);
                        assert(cur[i] == s0[i]);
                        assert(next[i] == cur[i]);
                    }
                    assert forall|i: int|
                        0 <= i < s0.len() && s0[i].active implies next[i] == #[trigger] s0[i] by {
                        assert(cur[i] == s0[i]);
                        assert(i != idx);
                        assert(next[i] == cur[i]);
                    }
                    assert forall|i: int|
                        s0.len() <= i < next.len() implies spawned_at(#[trigger] next[i], xi, yi) by {
                        assert(spawned_at(cur[i], xi, yi));
                        assert(next[i] == cur[i]);
                    }
                    assert(next.len() == cur.len());
                    assert(next.len() == s0.len());
                } else {
                    // Every slot was active, so the pool grew by one.
                    assert(inact_count(s0) <= t) by {
                        if inact_count(s0) > t {
                            lemma_nth_inactive(s0, s0.len() as int, t as nat);
                            let j = choose|j: int|
                                0 <= j < s0.len() && !s0[j].active && inact_before(s0, j) == t;
                            assert(cur[j] == s0[j]);
                            lemma_inactive_counts(cur, j);
                        }
                    }
                    assert forall|i: int|
                        0 <= i < s0.len() && !s0[i].active && inact_before(s0, i) < t + 1
                            implies spawned_at(#[trigger] next[i], xi, yi) by {
                        lemma_inactive_counts(s0, i);
                        assert(inact_before(s0, i) < t);
                        assert(spawned_at(cur[i], xi, yi));
                        assert(next[i] == cur[i]);
                    }
                    assert forall|i: int|
                        0 <= i < s0.len() && s0[i].active implies next[i] == #[trigger] s0[i] by {
                        assert(cur[i] == s0[i]);
                        assert(next[i] == cur[i]);
                    }
                    assert forall|i: int|
                        0 <= i < s0.len() && !s0[i].active && inact_before(s0, i) >= t + 1
                            implies next[i] == #[trigger] s0[i] by {
                        assert(cur[i] == s0[i]);
                        assert(next[i] == cur[i]);
                    }
                    assert forall|i: int|
                        s0.len() <= i < next.len() implies spawned_at(#[trigger] next[i], xi, yi) by {
                        if i < cur.len() {
                            assert(spawned_at(cur[i], xi, yi));
                            assert(next[i] == cur[i]);
                        } else {
                            assert(i == idx);
                        }
                    }
                    assert(next.len() == cur.len() + 1);
                }
            }
            t = t + 1;
        }
        proof {
            if old(self).pool.wf() {
                let s1 = self.pool@;
                assert forall|i: int| 0 <= i < s1.len() implies #[trigger] s1[i].wf() by {
                    if i < s0.len() {
                        assert(s0[i].wf());
                        if !s0[i].active && inact_before(s0, i) < BURST_SIZE {
                            assert(spawned_at(s1[i], x as int, y as int));
                        }
                    } else {
                        assert(spawned_at(s1[i], x as int, y as int));
                    }
                }
            }
        }
    }
}

} // verus!
