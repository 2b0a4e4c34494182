//! The rain simulation: the slot pool, the proximity index, the admission
//! budget and the random source, advanced together once per frame.
//!
//! A tick runs the motion model over every live droplet, recomputes the
//! proximity snapshot, lets large fast droplets emit trails, spends at
//! most one unit of the spawn allowance, and resolves this tick's
//! proximity events into volume-conserving merges.

use vstd::prelude::*;

use vstd::arithmetic::div_mod::{lemma_div_is_ordered, lemma_div_multiples_vanish};

use crate::admission::{spec_acc_after, spec_budget_granted, DROPLETS_PER_SECOND};
use crate::droplet::{Vec2, POS_LIMIT};
use crate::droplets::{all_bounded, live_count, lemma_pool_conservation, Droplets};
use crate::math::{half, SIZE_LIMIT};
use crate::merge::{key_in_events, merge};
use crate::motion::{gravity_non_linear, motion_outcome, motion_rng_after, quiescent, quiescent_step, GRAVITY_THRESHOLD};
use crate::rng::{Rng, RAND_DENOM};
use crate::spatial::{settled_index, sync, SpatialIndex};
use crate::droplet::Droplet;
use crate::trail::{trail, trail_idle, TRAIL_SIZE_THRESHOLD};

verus! {

/// The droplet simulation.
pub struct Rain {
    max_droplet_count: usize,
    droplet_size_range: (i64, i64),
    viewport_w: i64,
    viewport_h: i64,
    time_accumulator: u64,
    droplets_accumulator: usize,
    droplets: Droplets,
    index: SpatialIndex,
    rng: Rng,
}

/// The live droplets of the first `n` slots, in slot order, each as
/// `(x, y, size)` draw data.
pub open spec fn live_view(s: Seq<crate::droplet::Droplet>, n: int) -> Seq<(i64, i64, i64)>
    decreases n,
{
    if n <= 0 {
        Seq::empty()
    } else {
        let p = live_view(s, n - 1);
        if !s[n - 1].deleted {
            p.push((s[n - 1].pos.x, s[n - 1].pos.y, s[n - 1].size))
        } else {
            p
        }
    }
}

/// A droplet as spawn admission places it for the draws `ux`, `uy`, `us`:
/// live, at a position uniform over the viewport, of a size uniform over
/// the configured range.
pub open spec fn spawned_droplet_matches(
    d: Droplet,
    vw: int,
    vh: int,
    lo: int,
    hi: int,
    ux: int,
    uy: int,
    us: int,
) -> bool {
    &&& 0 <= ux < RAND_DENOM
    &&& 0 <= uy < RAND_DENOM
    &&& 0 <= us < RAND_DENOM
    &&& !d.deleted
    &&& d.pos.x == ux * vw / (RAND_DENOM as int)
    &&& d.pos.y == uy * vh / (RAND_DENOM as int)
    &&& d.size == lo + us * (hi - lo) / (RAND_DENOM as int)
}

impl Rain {
    /// The slot pool.
    pub closed spec fn pool(&self) -> Droplets {
        self.droplets
    }

    /// The proximity index.
    pub closed spec fn index_spec(&self) -> SpatialIndex {
        self.index
    }

    /// The random source's state.
    pub closed spec fn rng_state(&self) -> u64 {
        self.rng@
    }

    /// Seconds carried since the last allowance grant, in milliseconds.
    pub closed spec fn time_acc(&self) -> u64 {
        self.time_accumulator
    }

    /// Remaining spawn allowance.
    pub closed spec fn budget(&self) -> usize {
        self.droplets_accumulator
    }

    /// The configured spawn size range, in milli-units.
    pub closed spec fn size_range(&self) -> (i64, i64) {
        self.droplet_size_range
    }

    /// The spawn area, in milli-units.
    pub closed spec fn viewport(&self) -> (i64, i64) {
        (self.viewport_w, self.viewport_h)
    }

    /// Well-formedness: the pool and the index agree slot by slot, every
    /// slot is bounded, and the configuration is in range.
    pub open spec fn wf(&self) -> bool {
        &&& self.pool().wf()
        &&& self.index_spec().wf()
        &&& sync(self.pool(), self.index_spec())
        &&& all_bounded(self.pool())
        &&& 0 < self.size_range().0 <= self.size_range().1 <= SIZE_LIMIT
        &&& 0 < self.viewport().0 <= POS_LIMIT
        &&& 0 < self.viewport().1 <= POS_LIMIT
    }

    /// Builds the simulation: a pool of `max_droplet_count` slots all
    /// free, an empty index, a whole first second of spawn allowance, and
    /// a random source built from the caller's seed.
    pub fn new(
        max_droplet_count: usize,
        droplet_size_range: (i64, i64),
        window_size: (u32, u32),
        seed: u64,
    ) -> (r: Rain)
        requires
            0 < droplet_size_range.0 <= droplet_size_range.1 <= SIZE_LIMIT,
            window_size.0 > 0,
            window_size.1 > 0,
        ensures
            r.wf(),
            r.pool().capacity() == max_droplet_count,
            live_count(r.pool().slots()) == 0,
            r.time_acc() == 0,
            r.budget() == DROPLETS_PER_SECOND,
            r.size_range() == droplet_size_range,
    {
        let droplets = Droplets::with_capacity(max_droplet_count);
        let index = SpatialIndex::with_capacity(max_droplet_count);
        let rng = Rng::new(seed);
        let r = Rain {
            max_droplet_count,
            droplet_size_range,
            viewport_w: (window_size.0 as i64) * 1000,
            viewport_h: (window_size.1 as i64) * 1000,
            time_accumulator: 0,
            droplets_accumulator: DROPLETS_PER_SECOND,
            droplets,
            index,
            rng,
        };
        proof {
            lemma_pool_conservation(r.pool());
        }
        r
    }

    /// Number of live droplets.
    pub fn used_count(&self) -> (r: usize)
        ensures
            r == live_count(self.pool().slots()),
    {
        self.droplets.used_count()
    }

    /// Remaining spawn allowance, for diagnostics.
    pub fn droplets_accumulator(&self) -> (r: usize)
        ensures
            r == self.budget(),
    {
        self.droplets_accumulator
    }

    /// Number of slots.
    pub fn capacity(&self) -> (r: usize)
        ensures
            r == self.pool().capacity(),
    {
        self.droplets.len()
    }

    /// Draw data for the live droplets, in slot order: position and size.
    pub fn live_droplets(&self) -> (r: Vec<(i64, i64, i64)>)
        ensures
            r@ == live_view(self.pool().slots(), self.pool().capacity()),
    {
        let n = self.droplets.len();
        let mut out: Vec<(i64, i64, i64)> = Vec::new();
        let mut i: usize = 0;
        while i < n
            invariant
                i <= n == self.pool().capacity(),
                out@ == live_view(self.pool().slots(), i as int),
            decreases n - i,
        {
            let d = self.droplets.get(i);
            if !d.deleted {
                out.push((d.pos.x, d.pos.y, d.size));
            }
            i = i + 1;
        }
        out
    }

    /// One simulation tick of `dt` milliseconds: motion, proximity
    /// recomputation, trail emission, spawn admission, merge resolution.
    pub fn update(&mut self, dt: u64)
        requires
            old(self).wf(),
        ensures
            final(self).wf(),
            final(self).pool().capacity() == old(self).pool().capacity(),
            final(self).size_range() == old(self).size_range(),
            final(self).viewport() == old(self).viewport(),
            // the allowance follows the grant-then-spend recurrence, at
            // most one spawn per tick, and only out of a positive grant
            final(self).time_acc() == spec_acc_after(old(self).time_acc() as int, dt as int),
            final(self).budget() == spec_budget_granted(
                old(self).time_acc() as int,
                dt as int,
                old(self).budget() as int,
            ) || (spec_budget_granted(
                old(self).time_acc() as int,
                dt as int,
                old(self).budget() as int,
            ) > 0 && final(self).budget() == spec_budget_granted(
                old(self).time_acc() as int,
                dt as int,
                old(self).budget() as int,
            ) - 1),
            // every live droplet at or above the gravity threshold
            // follows the motion transition under the pass's
            // deterministic draw state; when the transition does not
            // cull it and the slot is still live at the tick's end, the
            // moved state shows through trail and merge, which change
            // only sizes and trail heights
            forall|k: int|
                0 <= k < old(self).pool().capacity() && !(#[trigger] old(self).pool().slots()[k]).deleted && old(self).pool().slots()[k].size
                    >= GRAVITY_THRESHOLD ==> {
                    let o = motion_outcome(
                        old(self).pool().slots()[k],
                        dt,
                        motion_rng_after(old(self).pool().slots(), dt, old(self).rng_state(), k),
                    );
                    (!o.1 && !final(self).pool().slots()[k].deleted) ==> {
                        &&& final(self).pool().slots()[k].pos == o.0.pos
                        &&& final(self).pool().slots()[k].speed == o.0.speed
                        &&& final(self).pool().slots()[k].seed == o.0.seed
                        &&& final(self).pool().slots()[k].skipping == o.0.skipping
                        &&& final(self).pool().slots()[k].slowing == o.0.slowing
                    }
                },
            // a droplet whose motion leaves it falling faster than
            // gravity, at or above the trail threshold, with no recorded
            // trail height, emits this tick: the surviving droplet
            // records the height the emission happened at
            forall|k: int|
                0 <= k < old(self).pool().capacity() && !(#[trigger] old(self).pool().slots()[k]).deleted && old(self).pool().slots()[k].size
                    >= GRAVITY_THRESHOLD ==> {
                    let o = motion_outcome(
                        old(self).pool().slots()[k],
                        dt,
                        motion_rng_after(old(self).pool().slots(), dt, old(self).rng_state(), k),
                    );
                    (!o.1 && o.0.speed.y > crate::motion::spec_gravity_y(dt) && o.0.size
                        >= TRAIL_SIZE_THRESHOLD && o.0.last_trail_y is None && !final(self).pool().slots()[k].deleted) ==> final(self).pool().slots()[k].last_trail_y
                        == Some(o.0.pos.y)
                },
            // when the tick spends its allowance, the spawned droplet
            // stands at a uniformly drawn viewport position with a
            // uniformly drawn configured size, and survives the tick:
            // this tick's merge events never name a freshly spawned slot
            ({
                let granted = spec_budget_granted(
                    old(self).time_acc() as int,
                    dt as int,
                    old(self).budget() as int,
                );
                final(self).budget() == granted - 1 ==> exists|i: int, ux: int, uy: int, us: int|
                    0 <= i < old(self).pool().capacity() && spawned_droplet_matches(
                        final(self).pool().slots()[i],
                        old(self).viewport().0 as int,
                        old(self).viewport().1 as int,
                        old(self).size_range().0 as int,
                        old(self).size_range().1 as int,
                        ux,
                        uy,
                        us,
                    )
            }),
            // each proximity event this tick reported costs one of its
            // pair of droplets
            forall|j: int|
                0 <= j < final(self).index_spec().events_spec().len() ==> final(self).pool().slots()[(#[trigger] final(self).index_spec().events_spec()[j]).a as int].deleted
                    || final(self).pool().slots()[final(self).index_spec().events_spec()[j].b as int].deleted,
            // a droplet under the gravity threshold never moves while it
            // stays live
            forall|k: int|
                0 <= k < old(self).pool().capacity() && !(#[trigger] old(self).pool().slots()[k]).deleted && old(self).pool().slots()[k].size
                    < GRAVITY_THRESHOLD && !final(self).pool().slots()[k].deleted ==> final(self).pool().slots()[k].pos == old(self).pool().slots()[k].pos,
            // a zero-length tick over a settled state changes nothing but
            // the countdowns of the processed droplets (the random source
            // still advances)
            (dt == 0 && old(self).budget() == 0 && old(self).time_acc() <= 1000 && quiescent(
                old(self).pool().slots(),
            ) && settled_index(old(self).index_spec())) ==> {
                &&& final(self).time_acc() == old(self).time_acc()
                &&& final(self).budget() == 0
                &&& final(self).pool().free_queue() == old(self).pool().free_queue()
                &&& final(self).index_spec().entries() == old(self).index_spec().entries()
                &&& forall|k: int|
                    0 <= k < old(self).pool().capacity() ==> final(self).pool().slots()[k]
                        == quiescent_step(old(self).pool().slots()[k])
            },
    {
        let ghost pre = *old(self);
        // allowance accrual: a grant once per elapsed second, carrying
        // the fractional remainder forward
        let acc1 = if self.time_accumulator <= u64::MAX - dt {
            self.time_accumulator + dt
        } else {
            u64::MAX
        };
        if acc1 > 1000 {
            self.time_accumulator = acc1 - 1000;
            self.droplets_accumulator = if self.droplets_accumulator <= usize::MAX
                - DROPLETS_PER_SECOND {
                self.droplets_accumulator + DROPLETS_PER_SECOND
            } else {
                usize::MAX
            };
        } else {
            self.time_accumulator = acc1;
        }
        let ghost granted = spec_budget_granted(
            pre.time_acc() as int,
            dt as int,
            pre.budget() as int,
        );
        proof {
            assert(self.time_accumulator == spec_acc_after(pre.time_acc() as int, dt as int));
            assert(self.droplets_accumulator == granted);
        }

        gravity_non_linear(&mut self.droplets, &mut self.index, &mut self.rng, dt);
        let ghost g_pool = self.droplets;
        let ghost g_index = self.index;

        self.index.update();
        let ghost u_index = self.index;

        trail(&mut self.droplets, &mut self.index, &mut self.rng, dt);
        let ghost t_pool = self.droplets;
        let ghost t_index = self.index;

        proof {
            if dt == 0 && pre.budget() == 0 && pre.time_acc() <= 1000 && quiescent(
                pre.pool().slots(),
            ) && settled_index(pre.index_spec()) {
                assert(trail_idle(g_pool.slots(), dt)) by {
                    assert forall|k: int|
                        0 <= k < g_pool.slots().len() && !(#[trigger] g_pool.slots()[k]).deleted
                            implies (g_pool.slots()[k].speed.y <= crate::motion::spec_gravity_y(dt)
                        || g_pool.slots()[k].size < TRAIL_SIZE_THRESHOLD) by {
                        assert(g_pool.slots()[k] == quiescent_step(pre.pool().slots()[k]));
                    }
                }
                // a settled snapshot recomputes to itself: no events
                if u_index.events_spec().len() > 0 {
                    let p0 = u_index.events_spec()[0];
                    assert(u_index.events_spec().contains(p0));
                    assert(false);
                }
            }
        }

        // spawn admission: attempt to spend the allowance with a
        // likelihood that grows over the course of each second
        let ghost mut spawn_draws: Option<(usize, u64, u64, u64)> = None;
        if self.droplets_accumulator > 0 {
            let roll = self.rng.fraction();
            let capped = if self.time_accumulator > 1000 {
                1000
            } else {
                self.time_accumulator
            };
            if roll < capped * 1000 {
                if let Some(i) = self.droplets.checkout() {
                    let ux = self.rng.fraction();
                    let x = spawn_coord(ux, self.viewport_w);
                    let uy = self.rng.fraction();
                    let y = spawn_coord(uy, self.viewport_h);
                    let us = self.rng.fraction();
                    let size = spawn_size(
                        us,
                        self.droplet_size_range.0,
                        self.droplet_size_range.1,
                    );
                    let mut d = *self.droplets.get(i);
                    d.pos = Vec2 { x, y };
                    d.size = size;
                    self.droplets.write(i, d);
                    self.index.insert(i, x, y, half(size));
                    self.droplets_accumulator = self.droplets_accumulator - 1;
                    proof {
                        spawn_draws = Some((i, ux, uy, us));
                        assert(t_pool.slots()[i as int].deleted);
                        assert(spawned_droplet_matches(
                            self.droplets.slots()[i as int],
                            self.viewport_w as int,
                            self.viewport_h as int,
                            self.droplet_size_range.0 as int,
                            self.droplet_size_range.1 as int,
                            ux as int,
                            uy as int,
                            us as int,
                        ));
                    }
                }
            }
        }
        let ghost a_pool = self.droplets;
        let ghost a_index = self.index;
        proof {
            assert forall|k: int|
                0 <= k < t_pool.capacity() && !(#[trigger] t_pool.slots()[k]).deleted implies (
            a_pool.slots()[k] == t_pool.slots()[k] && !a_pool.slots()[k].deleted) by {}
        }

        // consume this tick's proximity events
        let events = self.index.events();
        proof {
            assert forall|j: int| 0 <= j < events@.len() implies (#[trigger] events@[j]).a
                < events@[j].b < self.droplets.capacity() by {
                assert(self.index.events_spec()[j].a < self.index.events_spec()[j].b
                    < self.index.entries().len());
            }
        }
        merge(&mut self.droplets, &mut self.index, &events);
        proof {
            let pre_slots = pre.pool().slots();
            let cap = pre.pool().capacity();
            // each event named entries present when admission finished
            assert forall|j: int| 0 <= j < events@.len() implies (a_index.entries()[(
            #[trigger] events@[j]).a as int].present && a_index.entries()[events@[
                j].b as int].present && !a_pool.slots()[events@[j].a as int].deleted
                && !a_pool.slots()[events@[j].b as int].deleted) by {
                assert(u_index.events_spec().contains(events@[j]));
                assert(crate::spatial::pair_overlaps(g_index.entries(), events@[j]));
                let a = events@[j].a as int;
                let b = events@[j].b as int;
                assert(!g_pool.slots()[a].deleted && !g_pool.slots()[b].deleted);
                assert(!t_pool.slots()[a].deleted && !t_pool.slots()[b].deleted);
                assert(!a_pool.slots()[a].deleted && !a_pool.slots()[b].deleted);
            }
            // the events-cost clause
            assert forall|j: int| 0 <= j < self.index.events_spec().len() implies (
            self.droplets.slots()[(#[trigger] self.index.events_spec()[j]).a as int].deleted
                || self.droplets.slots()[self.index.events_spec()[j].b as int].deleted) by {
                assert(self.index.events_spec()[j] == events@[j]);
            }
            // the spawn clause
            let granted_after = spec_budget_granted(
                pre.time_acc() as int,
                dt as int,
                pre.budget() as int,
            );
            if self.droplets_accumulator == granted_after - 1 {
                assert(spawn_draws is Some);
                let (i, ux, uy, us) = spawn_draws->0;
                assert(!key_in_events(events@, i as int)) by {
                    if key_in_events(events@, i as int) {
                        let j = choose|j: int|
                            0 <= j < events@.len() && ((events@[j].a as int) == i as int || (
                            events@[j].b as int) == i as int);
                        assert(u_index.events_spec().contains(events@[j]));
                        assert(crate::spatial::pair_overlaps(g_index.entries(), events@[j]));
                        assert(!g_pool.slots()[i as int].deleted);
                        assert(!t_pool.slots()[i as int].deleted);
                        assert(false);
                    }
                }
                assert(self.droplets.slots()[i as int] == a_pool.slots()[i as int]);
                assert(spawned_droplet_matches(
                    self.droplets.slots()[i as int],
                    pre.viewport().0 as int,
                    pre.viewport().1 as int,
                    pre.size_range().0 as int,
                    pre.size_range().1 as int,
                    ux as int,
                    uy as int,
                    us as int,
                ));
            }
            // the motion and trail lifts: a surviving processed droplet
            // shows its moved state, and a due first emission its height
            assert forall|k: int|
                0 <= k < cap && !(#[trigger] pre_slots[k]).deleted && pre_slots[k].size
                    >= GRAVITY_THRESHOLD implies {
                let o = motion_outcome(
                    pre_slots[k],
                    dt,
                    motion_rng_after(pre_slots, dt, pre.rng_state(), k),
                );
                &&& ((!o.1 && !self.droplets.slots()[k].deleted) ==> {
                    &&& self.droplets.slots()[k].pos == o.0.pos
                    &&& self.droplets.slots()[k].speed == o.0.speed
                    &&& self.droplets.slots()[k].seed == o.0.seed
                    &&& self.droplets.slots()[k].skipping == o.0.skipping
                    &&& self.droplets.slots()[k].slowing == o.0.slowing
                })
                &&& ((!o.1 && o.0.speed.y > crate::motion::spec_gravity_y(dt) && o.0.size
                    >= TRAIL_SIZE_THRESHOLD && o.0.last_trail_y is None
                    && !self.droplets.slots()[k].deleted) ==> self.droplets.slots()[k].last_trail_y
                    == Some(o.0.pos.y))
            } by {
                let o = motion_outcome(
                    pre_slots[k],
                    dt,
                    motion_rng_after(pre_slots, dt, pre.rng_state(), k),
                );
                assert(crate::motion::motion_slot_matches(
                    pre_slots[k],
                    g_pool.slots()[k],
                    g_index.entries()[k],
                    dt,
                    motion_rng_after(pre_slots, dt, pre.rng_state(), k),
                ));
                if !o.1 {
                    assert(g_pool.slots()[k] == o.0);
                    assert(!g_pool.slots()[k].deleted);
                    assert(!t_pool.slots()[k].deleted);
                    assert(a_pool.slots()[k] == t_pool.slots()[k]);
                }
            }
        }
    }
}

/// A spawn coordinate uniform over the viewport span.
fn spawn_coord(u: u64, span: i64) -> (r: i64)
    requires
        u < RAND_DENOM,
        0 < span <= POS_LIMIT,
    ensures
        r == (u as int) * span / (RAND_DENOM as int),
        0 <= r <= span,
{
    proof {
        assert((u as int) * (span as int) <= 1_000_000 * (span as int) && 0 <= (u as int) * (
        span as int)) by (nonlinear_arith)
            requires
                0 <= u <= 1_000_000,
                0 < span,
        ;
        lemma_div_is_ordered((u as int) * (span as int), 1_000_000 * (span as int), 1_000_000);
        lemma_div_multiples_vanish(span as int, 1_000_000);
        lemma_div_is_ordered(0, (u as int) * (span as int), 1_000_000);
    }
    ((u as u128) * (span as u128) / (RAND_DENOM as u128)) as i64
}

/// A spawn size uniform over the configured range.
fn spawn_size(u: u64, lo: i64, hi: i64) -> (r: i64)
    requires
        u < RAND_DENOM,
        0 < lo <= hi <= SIZE_LIMIT,
    ensures
        r == lo + (u as int) * (hi - lo) / (RAND_DENOM as int),
        lo <= r <= hi,
{
    let span = hi - lo;
    proof {
        assert((u as int) * (span as int) <= 1_000_000 * (span as int) && 0 <= (u as int) * (
        span as int)) by (nonlinear_arith)
            requires
                0 <= u <= 1_000_000,
                0 <= span,
        ;
        lemma_div_is_ordered((u as int) * (span as int), 1_000_000 * (span as int), 1_000_000);
        lemma_div_multiples_vanish(span as int, 1_000_000);
        lemma_div_is_ordered(0, (u as int) * (span as int), 1_000_000);
    }
    lo + ((u as u128) * (span as u128) / (RAND_DENOM as u128)) as i64
}

} // verus!
