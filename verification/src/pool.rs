//! The particle pool: an ordered collection of particles, insertion order
//! being allocation order. It advances and culls active particles each tick,
//! and satisfies spawn requests by reusing the first dormant slot, growing by
//! one slot only when none is dormant — so the pool never shrinks.

use vstd::prelude::*;

use crate::particle::Color;
use crate::particle::Particle;
use crate::particle::ParticleModel;

verus! {

/// The visible rectangle. A particle leaving it — past the left or right
/// edge, or below the bottom — is culled; there is no upper edge, so a
/// particle may rise above the top indefinitely before gravity returns it.
#[derive(Clone, Copy, PartialEq, Eq, Structural, Debug)]
pub struct Bounds {
    pub width: i64,
    pub height: i64,
}

impl Bounds {
    /// A usable rectangle has positive extent in both directions.
    pub open spec fn wf(self) -> bool {
        self.width > 0 && self.height > 0
    }
}

/// Whether a particle's position lies outside the rectangle. The checks are
/// strict: a particle exactly on the left edge (`x == 0`) or exactly on the
/// right edge (`x == width`) is still inside, and there is no check above.
pub open spec fn out_of_bounds(p: ParticleModel, b: Bounds) -> bool {
    p.x < 0 || p.x > b.width || p.y > b.height
}

/// What one tick does to one slot: an active particle is advanced and then,
/// if its new position lies outside the rectangle, deactivated; a dormant
/// slot is left exactly as it is.
pub open spec fn tick_step(p: ParticleModel, g: int, b: Bounds) -> ParticleModel {
    if p.active {
        if out_of_bounds(p.advanced(g), b) {
            p.advanced(g).deactivated()
        } else {
            p.advanced(g)
        }
    } else {
        p
    }
}

/// How many of the first `i` slots are dormant.
pub open spec fn inact_before(s: Seq<ParticleModel>, i: int) -> nat
    decreases i,
{
    if i <= 0 {
        0
    } else {
        inact_before(s, i - 1) + if !s[i - 1].active { 1nat } else { 0nat }
    }
}

/// How many slots of the whole pool are dormant.
pub open spec fn inact_count(s: Seq<ParticleModel>) -> nat {
    inact_before(s, s.len() as int)
}

/// The dormant-slot count grows with the prefix length.
pub proof fn lemma_inact_before_monotone(s: Seq<ParticleModel>, i: int, j: int)
    requires
        i <= j,
    ensures
        inact_before(s, i) <= inact_before(s, j),
    decreases j - i,
{
    if i < j {
        lemma_inact_before_monotone(s, i, j - 1);
    }
}

/// Counting a dormant slot: the count just past it is one more than the
/// count up to it.
pub proof fn lemma_inact_before_step(s: Seq<ParticleModel>, i: int)
    requires
        0 <= i,
        !s[i].active,
    ensures
        inact_before(s, i + 1) == inact_before(s, i) + 1,
{
}

/// Wherever at least `t + 1` dormant slots precede position `i`, some dormant
/// slot before `i` is preceded by exactly `t` dormant ones.
pub proof fn lemma_nth_inactive(s: Seq<ParticleModel>, i: int, t: nat)
    requires
        inact_before(s, i) > t,
    ensures
        exists|j: int| 0 <= j < i && !s[j].active && inact_before(s, j) == t,
    decreases i,
{
    if i > 0 {
        if !s[i - 1].active && inact_before(s, i - 1) == t {
            assert(0 <= i - 1 < i && !s[i - 1].active && inact_before(s, i - 1) == t);
        } else {
            lemma_nth_inactive(s, i - 1, t);
            let j = choose|j: int| 0 <= j < i - 1 && !s[j].active && inact_before(s, j) == t;
            assert(0 <= j < i && !s[j].active && inact_before(s, j) == t);
        }
    }
}

/// Two distinct dormant slots are preceded by different dormant counts, so a
/// dormant count names at most one dormant slot.
pub proof fn lemma_inactive_index_unique(s: Seq<ParticleModel>, i: int, j: int)
    requires
        0 <= i < j,
        !s[i].active,
        !s[j].active,
    ensures
        inact_before(s, i) < inact_before(s, j),
{
    lemma_inact_before_step(s, i);
    lemma_inact_before_monotone(s, i + 1, j);
}

/// A dormant slot raises the whole pool's dormant count above the count of
/// the slots before it.
pub proof fn lemma_inactive_counts(s: Seq<ParticleModel>, i: int)
    requires
        0 <= i < s.len(),
        !s[i].active,
    ensures
        inact_count(s) > inact_before(s, i),
{
    lemma_inact_before_step(s, i);
    lemma_inact_before_monotone(s, i + 1, s.len() as int);
}

/// The ordered subsequence of active particles, for rendering.
pub open spec fn active_view(s: Seq<ParticleModel>) -> Seq<ParticleModel>
    decreases s.len(),
{
    if s.len() == 0 {
        Seq::empty()
    } else if s.last().active {
        active_view(s.drop_last()).push(s.last())
    } else {
        active_view(s.drop_last())
    }
}

/// The pool itself: the slots, in allocation order.
pub struct Pool {
    pub items: Vec<Particle>,
}

impl View for Pool {
    type V = Seq<ParticleModel>;

    open spec fn view(&self) -> Seq<ParticleModel> {
        self.items@.map_values(|p: Particle| p@)
    }
}

impl Pool {
    /// Every slot of a well-formed pool holds a well-formed particle.
    pub open spec fn wf(self) -> bool {
        forall|i: int| 0 <= i < self@.len() ==> #[trigger] self@[i].wf()
    }

    /// An empty pool: no slots at all.
    pub fn new() -> (p: Pool)
        ensures
            p@.len() == 0,
            p.wf(),
    {
        Pool { items: Vec::new() }
    }

    /// The number of slots, dormant ones included.
    pub fn len(&self) -> (n: usize)
        ensures
            n == self@.len(),
    {
        self.items.len()
    }

    /// A copy of the slot at `i`.
    pub fn get(&self, i: usize) -> (p: Particle)
        requires
            i < self@.len(),
        ensures
            p@ == self@[i as int],
    {
        self.items[i]
    }

    /// One simulation tick: every active particle is advanced by `gravity`,
    /// and every slot whose post-advancement position lies outside `bounds`
    /// is deactivated — in that order, within the same tick, so the cull uses
    /// the new position. Dormant slots are left untouched.
    pub fn tick(&mut self, gravity: i64, bounds: &Bounds)
        requires
            forall|i: int|
                0 <= i < old(self)@.len() && old(self)@[i].active
                    ==> (#[trigger] old(self)@[i]).can_advance(gravity as int),
        ensures
            final(self)@.len() == old(self)@.len(),
            forall|i: int|
                0 <= i < old(self)@.len()
                    ==> final(self)@[i] == tick_step(#[trigger] old(self)@[i], gravity as int, *bounds),
            old(self).wf() ==> final(self).wf(),
    {
        let ghost s0 = self@;
        let n = self.items.len();
        let mut i: usize = 0;
        while i < n
            invariant
                i <= n,
                n == self@.len(),
                s0.len() == n,
                forall|j: int|
                    0 <= j < s0.len() && s0[j].active ==> (#[trigger] s0[j]).can_advance(
                        gravity as int,
                    ),
                forall|j: int|
                    0 <= j < i ==> self@[j] == tick_step(#[trigger] s0[j], gravity as int, *bounds),
                forall|j: int| i <= j < n ==> self@[j] == #[trigger] s0[j],
            decreases n - i,
        {
            let mut p = self.items[i];
            assert(p@ == s0[i as int]);
            if p.active {
                p.advance(gravity);
            }
            if p.x < 0 || p.x > bounds.width || p.y > bounds.height {
                p.deactivate();
            }
            assert(p@ == tick_step(s0[i as int], gravity as int, *bounds));
            self.items[i] = p;
            i = i + 1;
        }
        proof {
            if old(self).wf() {
                assert forall|i: int| 0 <= i < self@.len() implies #[trigger] self@[i].wf() by {
                    assert(s0[i].wf());
                    assert(self@[i] == tick_step(s0[i], gravity as int, *bounds));
                }
            }
        }
    }

    /// The lowest dormant slot index, if the pool has one.
    pub fn first_inactive(&self) -> (r: Option<usize>)
        ensures
            match r {
                Some(j) => {
                    &&& j < self@.len()
                    &&& !self@[j as int].active
                    &&& forall|k: int| 0 <= k < j ==> (#[trigger] self@[k]).active
                },
                None => forall|k: int| 0 <= k < self@.len() ==> (#[trigger] self@[k]).active,
            },
    {
        let n = self.items.len();
        let mut i: usize = 0;
        while i < n
            invariant
                i <= n,
                n == self@.len(),
                forall|k: int| 0 <= k < i ==> (#[trigger] self@[k]).active,
            decreases n - i,
        {
            if !self.items[i].active {
                return Some(i);
            }
            i = i + 1;
        }
        None
    }

    /// Satisfies one spawn request: the first dormant slot, in allocation
    /// order, is reset to the requested parameters; only when every slot is
    /// active does the pool grow, by exactly one freshly constructed active
    /// particle. Returns the index of the slot used; at most one slot is
    /// consumed. All other slots are untouched.
    pub fn spawn_or_reuse(&mut self, radius: i64, x: i64, y: i64, vel: (i64, i64), color: Color) -> (idx: usize)
        ensures
            idx < final(self)@.len(),
            final(self)@[idx as int] == ParticleModel::fresh(
                radius as int, x as int, y as int, vel.0 as int, vel.1 as int, color,
            ),
            forall|j: int|
                0 <= j < old(self)@.len() && j != idx ==> final(self)@[j] == #[trigger] old(self)@[j],
            if inact_count(old(self)@) > 0 {
                &&& final(self)@.len() == old(self)@.len()
                &&& idx < old(self)@.len()
                &&& !old(self)@[idx as int].active
                &&& forall|k: int| 0 <= k < idx ==> (#[trigger] old(self)@[k]).active
            } else {
                &&& final(self)@.len() == old(self)@.len() + 1
                &&& idx == old(self)@.len()
            },
            old(self).wf() && ParticleModel::fresh(
                radius as int, x as int, y as int, vel.0 as int, vel.1 as int, color,
            ).wf() ==> final(self).wf(),
    {
        match self.first_inactive() {
            Some(j) => {
                proof {
                    lemma_inact_before_step(self@, j as int);
                    lemma_inact_before_monotone(self@, j as int + 1, self@.len() as int);
                }
                let mut p = self.items[j];
                p.reset(radius, x, y, vel, color);
                self.items[j] = p;
                proof {
                    lemma_spawn_keeps_wf(old(self)@, self@, j as int);
                }
                j
            },
            None => {
                proof {
                    lemma_all_active_none_inactive(self@);
                }
                let idx = self.items.len();
                self.items.push(Particle::new(radius, x, y, vel, color));
                proof {
                    lemma_spawn_keeps_wf(old(self)@, self@, idx as int);
                }
                idx
            },
        }
    }

    /// The ordered, filtered subsequence of currently active particles, as a
    /// snapshot of the pool at call time, for the renderer: dormant slots are
    /// never handed out.
    pub fn active_particles(&self) -> (r: Vec<Particle>)
        ensures
            r@.map_values(|p: Particle| p@) == active_view(self@),
    {
        let n = self.items.len();
        let mut out: Vec<Particle> = Vec::new();
        let mut i: usize = 0;
        while i < n
            invariant
                i <= n,
                n == self@.len(),
                out@.map_values(|p: Particle| p@) == active_view(self@.take(i as int)),
            decreases n - i,
        {
            let ghost pre = out@.map_values(|p: Particle| p@);
            let p = self.items[i];
            if p.active {
                out.push(p);
            }
            proof {
                let taken = self@.take(i + 1int);
                assert(taken.drop_last() =~= self@.take(i as int));
                assert(taken.last() == self@[i as int]);
                if p.active {
                    assert(out@.map_values(|q: Particle| q@) =~= pre.push(p@));
                }
                assert(out@.map_values(|q: Particle| q@) =~= active_view(taken));
            }
            i = i + 1;
        }
        proof {
            assert(self@.take(n as int) =~= self@);
        }
        out
    }
}

/// A pool stays well-formed when one spawn request fills slot `idx` with a
/// well-formed particle and leaves every other slot as it was.
proof fn lemma_spawn_keeps_wf(s0: Seq<ParticleModel>, s1: Seq<ParticleModel>, idx: int)
    requires
        0 <= idx < s1.len(),
        forall|i: int|
            0 <= i < s1.len() && i != idx ==> 0 <= i < s0.len() && #[trigger] s1[i] == s0[i],
    ensures
        (forall|i: int| 0 <= i < s0.len() ==> (#[trigger] s0[i]).wf()) && s1[idx].wf()
            ==> forall|i: int| 0 <= i < s1.len() ==> (#[trigger] s1[i]).wf(),
{
    if (forall|i: int| 0 <= i < s0.len() ==> (#[trigger] s0[i]).wf()) && s1[idx].wf() {
        assert forall|i: int| 0 <= i < s1.len() implies (#[trigger] s1[i]).wf() by {
            if i != idx {
                assert(s1[i] == s0[i]);
                assert(s0[i].wf());
            }
        }
    }
}

/// A pool whose slots are all active has no dormant slot to count.
pub proof fn lemma_all_active_none_inactive(s: Seq<ParticleModel>)
    requires
        forall|k: int| 0 <= k < s.len() ==> (#[trigger] s[k]).active,
    ensures
        inact_count(s) == 0,
{
    lemma_inact_before_all_active(s, s.len() as int);
}

/// No dormant slot among the first `i` means a count of zero there.
proof fn lemma_inact_before_all_active(s: Seq<ParticleModel>, i: int)
    requires
        i <= s.len(),
        forall|k: int| 0 <= k < s.len() ==> (#[trigger] s[k]).active,
    ensures
        inact_before(s, i) == 0,
    decreases i,
{
    if i > 0 {
        lemma_inact_before_all_active(s, i - 1);
    }
}

} // verus!
