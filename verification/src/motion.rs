//! Per-tick stochastic gravity integrator.
//!
//! Droplets below the gravity threshold are visually inert and skipped
//! whole. The rest run a countdown-driven state machine over
//! `{seed, skipping, slowing}`, update their velocity by one of four
//! prioritized rules, integrate their position, and are culled once they
//! fall fully below the visible area.

use vstd::prelude::*;

use crate::droplet::{Droplet, Vec2, POS_LIMIT, VEL_LIMIT};
use crate::droplets::{all_bounded, with_deleted, Droplets};
use crate::math::SIZE_LIMIT;
use crate::rng::{rng_next, Rng, RAND_DENOM};
use crate::spatial::{sync, SpatialIndex};

verus! {

/// Sizes under this threshold never move until merged larger.
pub const GRAVITY_THRESHOLD: i64 = 5000;

/// Horizontal gravity force factor; zero in this build, kept configurable.
pub const GRAVITY_FORCE_FACTOR_X: i64 = 0;

/// Per-tick downward gravity gain in milli-units: a quarter of the tick
/// length in milliseconds.
pub open spec fn spec_gravity_y(dt: u64) -> int {
    dt as int / 4
}

/// Clamps `v` into `[-limit, limit]`.
pub open spec fn clamp_to(v: int, limit: int) -> int {
    if v > limit {
        limit
    } else if v < -limit {
        -limit
    } else {
        v
    }
}

/// Seed recharge value: half the size, scaled by a uniform fraction and
/// the tick rate, so the stochastic period is roughly size-proportional
/// in wall-clock time. A zero-length tick saturates the countdown.
pub open spec fn spec_recharge(size: int, u: int, dt: int) -> int {
    if dt == 0 {
        i32::MAX as int
    } else {
        (size * u) / (2 * (RAND_DENOM as int) * dt)
    }
}

/// Threshold (against a draw below [`RAND_DENOM`]) for a dormant droplet
/// to start falling: `(1 - 1/size) * 0.01 * dt`, in draw units.
pub open spec fn spec_move_threshold(size: int, dt: int) -> int {
    ((size - 1000) * dt * 10) / size
}

/// Velocity dampening: nine tenths, rounded toward zero.
pub open spec fn spec_scale9(v: int) -> int {
    if v >= 0 {
        (v * 9) / 10
    } else {
        -((-v * 9) / 10)
    }
}

/// Countdown phase: when the seed ran out, recharge it from the draw `u`,
/// toggle the skipping mode and force dampening; then decrement.
pub open spec fn seed_phase(d: Droplet, dt: u64, u: int) -> Droplet {
    let d1 = if d.seed <= 0 {
        Droplet {
            seed: spec_recharge(d.size as int, u, dt as int) as i32,
            skipping: !d.skipping,
            slowing: true,
            ..d
        }
    } else {
        d
    };
    Droplet { seed: (d1.seed - 1) as i32, ..d1 }
}

/// Velocity phase, in priority order: dampen while slowing, snap to the
/// gravity terminal velocity while skipping, accelerate by size otherwise;
/// a dormant droplet starts falling when the draw `u` clears the
/// size-dependent threshold.
pub open spec fn velocity_phase(d: Droplet, dt: u64, u: int) -> Droplet {
    let g = spec_gravity_y(dt);
    if d.speed.y > 0 {
        if d.slowing {
            let vx = spec_scale9(d.speed.x as int);
            let vy = spec_scale9(d.speed.y as int);
            Droplet {
                speed: Vec2 { x: vx as i64, y: vy as i64 },
                slowing: !(vy < g),
                ..d
            }
        } else if d.skipping {
            Droplet {
                speed: Vec2 {
                    x: clamp_to(GRAVITY_FORCE_FACTOR_X as int, VEL_LIMIT as int) as i64,
                    y: clamp_to(g, VEL_LIMIT as int) as i64,
                },
                ..d
            }
        } else {
            Droplet {
                speed: Vec2 {
                    x: clamp_to(
                        d.speed.x + (GRAVITY_FORCE_FACTOR_X as int) * d.size / 1000,
                        VEL_LIMIT as int,
                    ) as i64,
                    y: clamp_to(d.speed.y + g * d.size / 1000, VEL_LIMIT as int) as i64,
                },
                ..d
            }
        }
    } else {
        if u < spec_move_threshold(d.size as int, dt as int) {
            Droplet {
                speed: Vec2 {
                    x: clamp_to(GRAVITY_FORCE_FACTOR_X as int, VEL_LIMIT as int) as i64,
                    y: clamp_to(g, VEL_LIMIT as int) as i64,
                },
                ..d
            }
        } else {
            d
        }
    }
}

/// Integration: Y decreases by the vertical speed (falling), X advances.
pub open spec fn integrate_phase(d: Droplet) -> Droplet {
    Droplet {
        pos: Vec2 {
            x: clamp_to(d.pos.x + d.speed.x, POS_LIMIT as int) as i64,
            y: clamp_to(d.pos.y - d.speed.y, POS_LIMIT as int) as i64,
        },
        ..d
    }
}

/// A droplet fully below the visible area is culled.
pub open spec fn spec_culled(d: Droplet) -> bool {
    d.pos.y + d.size / 2 < 0
}

/// The whole per-droplet motion transition. Draws are taken from the
/// deterministic source state `s` exactly as the executable step takes
/// them: one for the recharge when the seed ran out, one for the dormant
/// motion roll when the droplet is not already falling.
pub open spec fn motion_outcome(d: Droplet, dt: u64, s: u64) -> (Droplet, bool, u64) {
    let (d1, s1) = if d.seed <= 0 {
        (seed_phase(d, dt, (rng_next(s) % RAND_DENOM) as int), rng_next(s))
    } else {
        (seed_phase(d, dt, 0), s)
    };
    let (d2, s2) = if d1.speed.y > 0 {
        (velocity_phase(d1, dt, 0), s1)
    } else {
        (velocity_phase(d1, dt, (rng_next(s1) % RAND_DENOM) as int), rng_next(s1))
    };
    let d3 = integrate_phase(d2);
    (d3, spec_culled(d3), s2)
}

/// The droplet with only its countdown decremented.
pub open spec fn seed_decremented(d: Droplet) -> Droplet {
    Droplet { seed: (d.seed - 1) as i32, ..d }
}

/// Whether a processed slot's post-state matches the motion transition of
/// its pre-state under the draw state `s`: a culled droplet is freed in
/// place and its entry is gone, any other shows the advanced value.
pub open spec fn motion_slot_matches(
    pre: Droplet,
    post: Droplet,
    e: crate::spatial::SpatialEntry,
    dt: u64,
    s: u64,
) -> bool {
    let o = motion_outcome(pre, dt, s);
    if o.1 {
        post == with_deleted(o.0, true) && !e.present
    } else {
        post == o.0
    }
}

/// The random-source state after the motion pass has processed the first
/// `n` slots of the pre-tick pool `s`, starting from state `s0`: each
/// live slot at or above the gravity threshold consumes, in slot order,
/// the draws its transition takes.
pub open spec fn motion_rng_after(s: Seq<Droplet>, dt: u64, s0: u64, n: int) -> u64
    decreases n,
{
    if n <= 0 {
        s0
    } else {
        let prev = motion_rng_after(s, dt, s0, n - 1);
        if !s[n - 1].deleted && s[n - 1].size >= GRAVITY_THRESHOLD {
            motion_outcome(s[n - 1], dt, prev).2
        } else {
            prev
        }
    }
}

/// The droplet as a zero-length tick over a quiescent pool leaves it.
pub open spec fn quiescent_step(d: Droplet) -> Droplet {
    if !d.deleted && d.size >= GRAVITY_THRESHOLD {
        seed_decremented(d)
    } else {
        d
    }
}

/// A droplet that the motion model leaves in place whatever is drawn:
/// at rest, with a charged countdown, not below the visible area.
pub open spec fn settled(d: Droplet) -> bool {
    &&& d.speed.x == 0
    &&& d.speed.y == 0
    &&& d.seed > 0
    &&& d.pos.y + d.size / 2 >= 0
}

/// A pool whose every live droplet at or above the gravity threshold is
/// settled.
pub open spec fn quiescent(s: Seq<Droplet>) -> bool {
    forall|k: int|
        0 <= k < s.len() && !(#[trigger] s[k]).deleted && s[k].size >= GRAVITY_THRESHOLD ==> settled(
            s[k],
        )
}

/// With a zero-length tick, a settled droplet only loses one count of its
/// seed, whatever the draws.
pub proof fn lemma_motion_settled(d: Droplet, s: u64)
    requires
        d.bounded(),
        settled(d),
        d.size >= GRAVITY_THRESHOLD,
    ensures
        motion_outcome(d, 0, s).0 == seed_decremented(d),
        !motion_outcome(d, 0, s).1,
{
    let (d3, culled, _) = motion_outcome(d, 0, s);
    assert(spec_move_threshold(d.size as int, 0) == 0);
    assert(d3.pos == d.pos);
}

/// Exact gravity gain for the tick.
fn gravity_y_exec(dt: u64) -> (g: i64)
    ensures
        g == spec_gravity_y(dt),
{
    (dt / 4) as i64
}

/// Clamps a wide value into `[-VEL_LIMIT, VEL_LIMIT]`.
fn clamp_vel(v: i128) -> (r: i64)
    ensures
        r == clamp_to(v as int, VEL_LIMIT as int),
{
    if v > VEL_LIMIT as i128 {
        VEL_LIMIT
    } else if v < -(VEL_LIMIT as i128) {
        -VEL_LIMIT
    } else {
        v as i64
    }
}

/// Clamps a wide value into `[-POS_LIMIT, POS_LIMIT]`.
fn clamp_pos(v: i128) -> (r: i64)
    ensures
        r == clamp_to(v as int, POS_LIMIT as int),
{
    if v > POS_LIMIT as i128 {
        POS_LIMIT
    } else if v < -(POS_LIMIT as i128) {
        -POS_LIMIT
    } else {
        v as i64
    }
}

/// Exact recharge computation in wide arithmetic.
fn recharge_exec(size: i64, u: u64, dt: u64) -> (r: i32)
    requires
        0 < size <= SIZE_LIMIT,
        u < RAND_DENOM,
    ensures
        r == spec_recharge(size as int, u as int, dt as int),
        r >= 0,
{
    if dt == 0 {
        i32::MAX
    } else {
        proof {
            assert((size as int) * (u as int) <= 1_000_000_000_000_000int) by (nonlinear_arith)
                requires
                    0 <= size <= 1_000_000_000,
                    0 <= u <= 1_000_000,
            ;
            assert(2_000_000int * (dt as int) <= 0x20_0000_0000_0000_0000_0000int)
                by (nonlinear_arith)
                requires
                    0 <= dt <= 0xffff_ffff_ffff_ffffu64,
            ;
        }
        let p = (size as u128) * (u as u128);
        let den = 2 * (RAND_DENOM as u128) * (dt as u128);
        let q = p / den;
        proof {
            assert(q <= 500_000_000) by (nonlinear_arith)
                requires
                    q == p / den,
                    p <= 1_000_000_000_000_000,
                    den >= 2_000_000,
            ;
        }
        q as i32
    }
}

/// Exact dampening computation.
fn scale9(v: i64) -> (r: i64)
    requires
        -VEL_LIMIT <= v <= VEL_LIMIT,
    ensures
        r == spec_scale9(v as int),
        -VEL_LIMIT <= r <= VEL_LIMIT,
        v >= 0 ==> 0 <= r <= v,
{
    if v >= 0 {
        let m = (v as u64) * 9;
        let q = m / 10;
        proof {
            assert(q <= v) by (nonlinear_arith)
                requires
                    q == (v as u64 * 9) / 10,
                    0 <= v,
            ;
        }
        q as i64
    } else {
        let m = ((-v) as u64) * 9;
        let q = m / 10;
        proof {
            assert(q <= -v) by (nonlinear_arith)
                requires
                    q == ((-v) as u64 * 9) / 10,
                    0 <= -v,
            ;
        }
        -(q as i64)
    }
}

/// Exact size-scaled acceleration, clamped.
fn accel(v: i64, g: i64, size: i64) -> (r: i64)
    requires
        -VEL_LIMIT <= v <= VEL_LIMIT,
        0 <= g,
        0 < size <= SIZE_LIMIT,
    ensures
        r == clamp_to(v + g * size / 1000, VEL_LIMIT as int),
{
    proof {
        assert(0 <= (g as int) * (size as int) <= 0x7fff_ffff_ffff_ffff_0000_0000int)
            by (nonlinear_arith)
            requires
                0 <= g <= 0x7fff_ffff_ffff_ffffi64,
                0 < size <= 1_000_000_000,
        ;
    }
    let add = (g as i128) * (size as i128) / 1000;
    clamp_vel(v as i128 + add)
}

/// Exact dormant-motion roll.
fn below_move_threshold(u: u64, size: i64, dt: u64) -> (r: bool)
    requires
        1000 <= size <= SIZE_LIMIT,
        u < RAND_DENOM,
    ensures
        r == (u < spec_move_threshold(size as int, dt as int)),
{
    proof {
        assert(((size - 1000) as int) * (dt as int)
            <= 0x10_0000_0000_0000_0000_0000_0000int) by (nonlinear_arith)
            requires
                0 <= size - 1000 <= 1_000_000_000,
                0 <= dt <= 0xffff_ffff_ffff_ffffu64,
        ;
    }
    let t = ((size - 1000) as u128) * (dt as u128) * 10 / (size as u128);
    (u as u128) < t
}

/// One droplet's motion for one tick: the countdown state machine, the
/// velocity rules, the integration, and the cull test. Returns the
/// advanced droplet and whether it fell below the visible area.
pub fn motion_droplet_step(d: Droplet, dt: u64, rng: &mut Rng) -> (r: (Droplet, bool))
    requires
        d.bounded(),
        !d.deleted,
        d.size >= GRAVITY_THRESHOLD,
    ensures
        ({
            let (d3, culled, s2) = motion_outcome(d, dt, old(rng)@);
            r.0 == d3 && r.1 == culled && final(rng)@ == s2
        }),
        r.0.bounded(),
        !r.0.deleted,
        r.0.size == d.size,
        r.0.last_trail_y == d.last_trail_y,
{
    let mut out = d;
    // countdown and stochastic mode toggling
    if out.seed <= 0 {
        let u = rng.fraction();
        out.seed = recharge_exec(out.size, u, dt);
        out.skipping = !out.skipping;
        out.slowing = true;
    }
    out.seed = out.seed - 1;
    let g = gravity_y_exec(dt);
    if out.speed.y > 0 {
        if out.slowing {
            out.speed.x = scale9(out.speed.x);
            out.speed.y = scale9(out.speed.y);
            if out.speed.y < g {
                out.slowing = false;
            }
        } else if out.skipping {
            out.speed.x = clamp_vel(GRAVITY_FORCE_FACTOR_X as i128);
            out.speed.y = clamp_vel(g as i128);
        } else {
            out.speed.x = accel(out.speed.x, GRAVITY_FORCE_FACTOR_X, out.size);
            out.speed.y = accel(out.speed.y, g, out.size);
        }
    } else {
        let u = rng.fraction();
        if below_move_threshold(u, out.size, dt) {
            out.speed.x = clamp_vel(GRAVITY_FORCE_FACTOR_X as i128);
            out.speed.y = clamp_vel(g as i128);
        }
    }
    out.pos.y = clamp_pos(out.pos.y as i128 - out.speed.y as i128);
    out.pos.x = clamp_pos(out.pos.x as i128 + out.speed.x as i128);
    let culled = out.pos.y + crate::math::half(out.size) < 0;
    (out, culled)
}

/// Advances every live droplet at or above the gravity threshold by one
/// tick, frees the slots that fell below the visible area and removes
/// their index entries, and moves the index footprints of the droplets
/// that changed position.
pub fn gravity_non_linear(droplets: &mut Droplets, index: &mut SpatialIndex, rng: &mut Rng, dt: u64)
    requires
        old(droplets).wf(),
        old(index).wf(),
        sync(*old(droplets), *old(index)),
        all_bounded(*old(droplets)),
    ensures
        final(droplets).wf(),
        final(index).wf(),
        sync(*final(droplets), *final(index)),
        all_bounded(*final(droplets)),
        final(droplets).capacity() == old(droplets).capacity(),
        final(index).events_spec() == old(index).events_spec(),
        // free slots are untouched
        forall|k: int|
            0 <= k < old(droplets).capacity() && (#[trigger] old(droplets).slots()[k]).deleted
                ==> final(droplets).slots()[k] == old(droplets).slots()[k],
        // droplets under the gravity threshold are skipped whole
        forall|k: int|
            0 <= k < old(droplets).capacity() && !(#[trigger] old(droplets).slots()[k]).deleted
                && old(droplets).slots()[k].size < GRAVITY_THRESHOLD
                ==> final(droplets).slots()[k] == old(droplets).slots()[k]
                && final(index).entries()[k] == old(index).entries()[k],
        // motion creates no droplets
        forall|k: int|
            0 <= k < old(droplets).capacity() && !(#[trigger] final(droplets).slots()[k]).deleted
                ==> !old(droplets).slots()[k].deleted,
        // each processed droplet follows the motion transition exactly,
        // under the deterministic draw state the pass reaches at its
        // slot; a culled one is freed and leaves the index
        forall|k: int|
            0 <= k < old(droplets).capacity() && !(#[trigger] old(droplets).slots()[k]).deleted
                && old(droplets).slots()[k].size >= GRAVITY_THRESHOLD ==> motion_slot_matches(
                old(droplets).slots()[k],
                final(droplets).slots()[k],
                final(index).entries()[k],
                dt,
                motion_rng_after(old(droplets).slots(), dt, old(rng)@, k),
            ),
        // the pass consumes exactly the processed droplets' draws
        final(rng)@ == motion_rng_after(
            old(droplets).slots(),
            dt,
            old(rng)@,
            old(droplets).capacity(),
        ),
        // a zero-length tick over a quiescent pool only decrements the
        // countdowns of the processed droplets
        (dt == 0 && quiescent(old(droplets).slots())) ==> {
            &&& final(droplets).free_queue() == old(droplets).free_queue()
            &&& final(index).entries() == old(index).entries()
            &&& final(index).prev_pairs() == old(index).prev_pairs()
            &&& forall|k: int|
                0 <= k < old(droplets).capacity() ==> final(droplets).slots()[k]
                    == quiescent_step(old(droplets).slots()[k])
        },
{
    let ghost pool0 = *old(droplets);
    let ghost index0 = *old(index);
    let ghost rng0 = rng@;
    let n = droplets.len();
    let mut i: usize = 0;
    while i < n
        invariant
            i <= n,
            n == droplets.capacity(),
            n == pool0.capacity(),
            droplets.wf(),
            index.wf(),
            sync(*droplets, *index),
            all_bounded(*droplets),
            pool0.wf(),
            index0.wf(),
            sync(pool0, index0),
            all_bounded(pool0),
            index.events_spec() == index0.events_spec(),
            forall|k: int|
                i <= k < n ==> droplets.slots()[k] == pool0.slots()[k] && index.entries()[k] == index0.entries()[k],
            forall|k: int|
                0 <= k < i && (#[trigger] pool0.slots()[k]).deleted ==> droplets.slots()[k] == pool0.slots()[k],
            forall|k: int|
                0 <= k < i && !(#[trigger] pool0.slots()[k]).deleted && pool0.slots()[k].size
                    < GRAVITY_THRESHOLD ==> droplets.slots()[k] == pool0.slots()[k]
                    && index.entries()[k] == index0.entries()[k],
            forall|k: int|
                0 <= k < n && !(#[trigger] droplets.slots()[k]).deleted
                    ==> !pool0.slots()[k].deleted,
            rng@ == motion_rng_after(pool0.slots(), dt, rng0, i as int),
            forall|k: int|
                0 <= k < i && !(#[trigger] pool0.slots()[k]).deleted && pool0.slots()[k].size
                    >= GRAVITY_THRESHOLD ==> motion_slot_matches(
                    pool0.slots()[k],
                    droplets.slots()[k],
                    index.entries()[k],
                    dt,
                    motion_rng_after(pool0.slots(), dt, rng0, k),
                ),
            (dt == 0 && quiescent(pool0.slots())) ==> {
                &&& droplets.free_queue() == pool0.free_queue()
                &&& index.entries() == index0.entries()
                &&& index.prev_pairs() == index0.prev_pairs()
                &&& forall|k: int|
                    0 <= k < i ==> droplets.slots()[k] == quiescent_step(pool0.slots()[k])
            },
        decreases n - i,
    {
        let ghost dpre = *droplets;
        let ghost ipre = *index;
        let d = *droplets.get(i);
        if !d.deleted && d.size >= GRAVITY_THRESHOLD {
            let ghost s0 = rng@;
            proof {
                assert(s0 == motion_rng_after(pool0.slots(), dt, rng0, i as int));
            }
            let (d2, cull) = motion_droplet_step(d, dt, rng);
            proof {
                if dt == 0 && quiescent(pool0.slots()) {
                    assert(settled(d));
                    lemma_motion_settled(d, s0);
                }
            }
            droplets.write(i, d2);
            if cull {
                index.remove(i);
                droplets.free(i);
            } else if d2.speed.x != 0 || d2.speed.y != 0 {
                index.set_position(i, d2.pos.x, d2.pos.y);
            } else {
                proof {
                    assert(d2.pos.x == d.pos.x && d2.pos.y == d.pos.y);
                }
            }
            proof {
                assert(motion_slot_matches(
                    pool0.slots()[i as int],
                    droplets.slots()[i as int],
                    index.entries()[i as int],
                    dt,
                    s0,
                ));
                assert(pool0.slots()[i as int] == d);
                assert(rng@ == motion_outcome(d, dt, s0).2);
                assert(rng@ == motion_rng_after(pool0.slots(), dt, rng0, i + 1));
            }
        } else {
            proof {
                assert(pool0.slots()[i as int] == d);
                assert(motion_rng_after(pool0.slots(), dt, rng0, i + 1) == motion_rng_after(
                    pool0.slots(),
                    dt,
                    rng0,
                    i as int,
                ));
            }
        }
        proof {
            assert forall|k: int|
                0 <= k < i + 1 && !(#[trigger] pool0.slots()[k]).deleted && pool0.slots()[k].size
                    >= GRAVITY_THRESHOLD implies motion_slot_matches(
                pool0.slots()[k],
                droplets.slots()[k],
                index.entries()[k],
                dt,
                motion_rng_after(pool0.slots(), dt, rng0, k),
            ) by {
                if k < i {
                    assert(droplets.slots()[k] == dpre.slots()[k]);
                    assert(index.entries()[k] == ipre.entries()[k]);
                    assert(motion_slot_matches(
                        pool0.slots()[k],
                        dpre.slots()[k],
                        ipre.entries()[k],
                        dt,
                        motion_rng_after(pool0.slots(), dt, rng0, k),
                    ));
                }
            }
        }
        i = i + 1;
    }
}

} // verus!
