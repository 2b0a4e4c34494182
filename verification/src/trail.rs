//! Trail emission: a large droplet falling faster than gravity leaves
//! smaller droplets behind it.
//!
//! An emitting parent records the emission height, sheds a
//! volume-conserving share of its size to the child ([`crate::math::shrink_size`]),
//! and the child is checked out of the pool and inserted into the index
//! just behind the parent; when the pool is exhausted the parent still
//! sheds but no child appears.

use vstd::prelude::*;

use crate::droplet::{Droplet, Vec2, POS_LIMIT};
use crate::droplets::{all_bounded, Droplets};
use crate::math::{half, lemma_cube_monotone, shrink_size, volume, SIZE_LIMIT};
use crate::motion::{clamp_to, spec_gravity_y};
use crate::rng::{Rng, RAND_DENOM};
use crate::spatial::{sync, SpatialIndex};

verus! {

/// Only droplets at least this large emit trails.
pub const TRAIL_SIZE_THRESHOLD: i64 = 6000;

/// A pool with no candidate emitter: every live droplet either does not
/// fall faster than gravity or is under the trail threshold. The trail
/// emitter leaves such a pool untouched and draws nothing.
pub open spec fn trail_idle(s: Seq<Droplet>, dt: u64) -> bool {
    forall|k: int|
        0 <= k < s.len() && !(#[trigger] s[k]).deleted ==> (s[k].speed.y <= spec_gravity_y(dt)
            || s[k].size < TRAIL_SIZE_THRESHOLD)
}

/// The child's size: a uniform factor in `[0.9, 1.1)` of a quarter of the
/// parent's size.
pub open spec fn spec_trail_size(size: int, u: int) -> int {
    ((900_000 + u / 5) * size) / 4_000_000
}

/// The horizontal offset of a trail child for the draw `u`: uniform over
/// one world unit either side of the parent.
pub open spec fn spec_trail_offset(u: int) -> int {
    (u * 2000) / (RAND_DENOM as int) - 1000
}

/// The parent's post-shed size against its pre-shed size and the drawn
/// child size: the volume bracketing of [`crate::math::shrink_size`].
pub open spec fn shed_size_ok(r: int, p: int, ts: int) -> bool {
    &&& 1 <= r <= p
    &&& volume(ts) <= volume(p) ==> volume(r) <= volume(p) - volume(ts) < volume(r + 2)
}

/// A child of `parent` as the emitter placed it with the size draw `us`
/// and the offset draw `ux`: live, just behind the parent along the
/// fall, no larger than the drawn size. The child may shed trails of its
/// own before the pass ends, so only its position, liveness and size
/// bound are stated of the pass's final state.
pub open spec fn trail_child_matches(parent: Droplet, child: Droplet, us: int, ux: int) -> bool {
    let ts = spec_trail_size(parent.size as int, us);
    &&& !child.deleted
    &&& child.pos.x == clamp_to(parent.pos.x + spec_trail_offset(ux), POS_LIMIT as int)
    &&& child.pos.y == clamp_to(
        parent.pos.y + parent.size / 2 + parent.speed.y + ts / 2,
        POS_LIMIT as int,
    )
    &&& 1 <= child.size <= ts
}

/// What one emission did, for the draws `us` and `ux`: the parent shed
/// exactly the drawn child size's volume, and the child stands in the
/// pool unless it was exhausted.
pub open spec fn trail_emission_ok(
    pre: Droplet,
    post: Droplet,
    pool: Droplets,
    us: int,
    ux: int,
) -> bool {
    &&& 0 <= us < RAND_DENOM
    &&& 0 <= ux < RAND_DENOM
    &&& shed_size_ok(post.size as int, pre.size as int, spec_trail_size(pre.size as int, us))
    &&& ((exists|c: int|
        0 <= c < pool.slots().len() && trail_child_matches(pre, pool.slots()[c], us, ux))
        || pool.free_queue().len() == 0)
}

/// Exact child-size computation.
fn trail_size_exec(size: i64, u: u64) -> (r: i64)
    requires
        TRAIL_SIZE_THRESHOLD <= size <= SIZE_LIMIT,
        u < RAND_DENOM,
    ensures
        r == spec_trail_size(size as int, u as int),
        2 <= r <= size,
{
    let f = 900_000 + u / 5;
    proof {
        assert((f as int) * (size as int) <= 1_100_000 * (size as int) && 900_000 * (size as int)
            <= (f as int) * (size as int) && (f as int) * (size as int)
            <= 1_100_000_000_000_000int) by (nonlinear_arith)
            requires
                900_000 <= f <= 1_100_000,
                6000 <= size <= 1_000_000_000,
        ;
    }
    let p = (f as u128) * (size as u128);
    let q = p / 4_000_000;
    q as i64
}

/// Runs the trail emitter over every slot in index order.
pub fn trail(droplets: &mut Droplets, index: &mut SpatialIndex, rng: &mut Rng, dt: u64)
    requires
        old(droplets).wf(),
        old(index).wf(),
        sync(*old(droplets), *old(index)),
        all_bounded(*old(droplets)),
    ensures
        final(droplets).wf(),
        final(index).wf(),
        sync(*final(droplets), *final(index)),
        all_bounded(*final(droplets)),
        final(droplets).capacity() == old(droplets).capacity(),
        final(index).events_spec() == old(index).events_spec(),
        final(index).prev_pairs() == old(index).prev_pairs(),
        // an emitting parent sheds size and records the height; nothing
        // else about a live droplet changes, and none disappears
        forall|k: int|
            0 <= k < old(droplets).capacity() && !(#[trigger] old(droplets).slots()[k]).deleted
                ==> {
                &&& !final(droplets).slots()[k].deleted
                &&& final(droplets).slots()[k].pos == old(droplets).slots()[k].pos
                &&& final(droplets).slots()[k].speed == old(droplets).slots()[k].speed
                &&& final(droplets).slots()[k].seed == old(droplets).slots()[k].seed
                &&& final(droplets).slots()[k].skipping == old(droplets).slots()[k].skipping
                &&& final(droplets).slots()[k].slowing == old(droplets).slots()[k].slowing
                &&& final(droplets).slots()[k].size <= old(droplets).slots()[k].size
            },
        // a live droplet not falling faster than gravity, or under the
        // trail threshold, is skipped whole
        forall|k: int|
            0 <= k < old(droplets).capacity() && !(#[trigger] old(droplets).slots()[k]).deleted
                && (old(droplets).slots()[k].speed.y <= spec_gravity_y(dt) || old(droplets).slots()[k].size < TRAIL_SIZE_THRESHOLD) ==> final(droplets).slots()[k] == old(droplets).slots()[k] && final(index).entries()[k] == old(index).entries()[k],
        // a droplet falling fast enough and large enough that has never
        // emitted, emits now: it records the height, strictly sheds the
        // drawn child's volume, and the child stands just behind it
        // unless the pool was exhausted
        forall|k: int|
            0 <= k < old(droplets).capacity() && !(#[trigger] old(droplets).slots()[k]).deleted
                && old(droplets).slots()[k].speed.y > spec_gravity_y(dt) && old(droplets).slots()[k].size >= TRAIL_SIZE_THRESHOLD && old(droplets).slots()[k].last_trail_y
                is None ==> final(droplets).slots()[k].last_trail_y == Some(
                old(droplets).slots()[k].pos.y,
            ) && final(droplets).slots()[k].size < old(droplets).slots()[k].size && exists|
                us: int,
                ux: int,
            |
                trail_emission_ok(
                    old(droplets).slots()[k],
                    final(droplets).slots()[k],
                    *final(droplets),
                    us,
                    ux,
                ),
        // a parent with a recorded height that has not yet fallen the
        // minimum trail distance is skipped whole, whatever is drawn
        forall|k: int|
            0 <= k < old(droplets).capacity() && !(#[trigger] old(droplets).slots()[k]).deleted
                && old(droplets).slots()[k].speed.y > spec_gravity_y(dt) && old(droplets).slots()[k].size >= TRAIL_SIZE_THRESHOLD && (old(droplets).slots()[k].last_trail_y matches Some(y0) && y0 - old(droplets).slots()[k].pos.y
                < 20_000) ==> final(droplets).slots()[k] == old(droplets).slots()[k] && final(index).entries()[k] == old(index).entries()[k],
        // with no live droplet falling faster than gravity, nothing
        // happens at all
        trail_idle(old(droplets).slots(), dt) ==> {
            &&& final(droplets).slots() == old(droplets).slots()
            &&& final(droplets).free_queue() == old(droplets).free_queue()
            &&& final(index).entries() == old(index).entries()
        },
{
    let ghost pool0 = *old(droplets);
    let ghost index0 = *old(index);
    let n = droplets.len();
    let g = {
        let raw = dt / 4;
        raw as i64
    };
    let mut i: usize = 0;
    while i < n
        invariant
            i <= n,
            g == spec_gravity_y(dt),
            n == droplets.capacity(),
            n == pool0.capacity(),
            droplets.wf(),
            index.wf(),
            sync(*droplets, *index),
            all_bounded(*droplets),
            pool0.wf(),
            index0.wf(),
            sync(pool0, index0),
            all_bounded(pool0),
            index.events_spec() == index0.events_spec(),
            index.prev_pairs() == index0.prev_pairs(),
            // deleted slots were deleted from the start and are untouched
            forall|k: int|
                0 <= k < n && (#[trigger] droplets.slots()[k]).deleted ==> droplets.slots()[k]
                    == pool0.slots()[k],
            // slots live from the start and not yet visited are untouched
            forall|k: int|
                i <= k < n && !(#[trigger] pool0.slots()[k]).deleted ==> droplets.slots()[k]
                    == pool0.slots()[k] && index.entries()[k] == index0.entries()[k],
            // visited slots live from the start follow the parent clauses
            forall|k: int|
                0 <= k < n && !(#[trigger] pool0.slots()[k]).deleted ==> {
                    &&& !droplets.slots()[k].deleted
                    &&& droplets.slots()[k].pos == pool0.slots()[k].pos
                    &&& droplets.slots()[k].speed == pool0.slots()[k].speed
                    &&& droplets.slots()[k].seed == pool0.slots()[k].seed
                    &&& droplets.slots()[k].skipping == pool0.slots()[k].skipping
                    &&& droplets.slots()[k].slowing == pool0.slots()[k].slowing
                    &&& droplets.slots()[k].size <= pool0.slots()[k].size
                },
            forall|k: int|
                0 <= k < i && !(#[trigger] pool0.slots()[k]).deleted && (pool0.slots()[k].speed.y
                    <= spec_gravity_y(dt) || pool0.slots()[k].size < TRAIL_SIZE_THRESHOLD)
                    ==> droplets.slots()[k] == pool0.slots()[k] && index.entries()[k]
                    == index0.entries()[k],
            forall|k: int|
                0 <= k < i && !(#[trigger] pool0.slots()[k]).deleted && pool0.slots()[k].speed.y
                    > spec_gravity_y(dt) && pool0.slots()[k].size >= TRAIL_SIZE_THRESHOLD
                    && pool0.slots()[k].last_trail_y is None ==> droplets.slots()[k].last_trail_y
                    == Some(pool0.slots()[k].pos.y) && droplets.slots()[k].size
                    < pool0.slots()[k].size && exists|us: int, ux: int|
                    trail_emission_ok(
                        pool0.slots()[k],
                        droplets.slots()[k],
                        *droplets,
                        us,
                        ux,
                    ),
            forall|k: int|
                0 <= k < i && !(#[trigger] pool0.slots()[k]).deleted && pool0.slots()[k].speed.y
                    > spec_gravity_y(dt) && pool0.slots()[k].size >= TRAIL_SIZE_THRESHOLD && (
                pool0.slots()[k].last_trail_y matches Some(y0) && y0 - pool0.slots()[k].pos.y
                    < 20_000) ==> droplets.slots()[k] == pool0.slots()[k] && index.entries()[k]
                    == index0.entries()[k],
            trail_idle(pool0.slots(), dt) ==> {
                &&& droplets.slots() == pool0.slots()
                &&& droplets.free_queue() == pool0.free_queue()
                &&& index.entries() == index0.entries()
            },
        decreases n - i,
    {
        let ghost dpre = *droplets;
        let d = *droplets.get(i);
        if !d.deleted && d.speed.y > g {
            let mut emit = false;
            if d.size >= TRAIL_SIZE_THRESHOLD {
                match d.last_trail_y {
                    None => {
                        emit = true;
                    },
                    Some(lty) => {
                        // minimum fall since the last emission:
                        // uniform(0.1, 1.0) of 200 world units
                        let u_d = rng.fraction();
                        let dist = 20_000 + ((u_d * 180_000) / RAND_DENOM) as i64;
                        if lty - d.pos.y >= dist {
                            emit = true;
                        }
                    },
                }
            }
            if emit {
                let u_s = rng.fraction();
                let ts = trail_size_exec(d.size, u_s);
                // the child sits a little off the parent's center,
                // just behind it along the fall
                let u_x = rng.fraction();
                let ox = ((u_x * 2000) / RAND_DENOM) as i64 - 1000;
                let child_x = {
                    let wide = d.pos.x as i128 + ox as i128;
                    if wide > POS_LIMIT as i128 {
                        POS_LIMIT
                    } else if wide < -(POS_LIMIT as i128) {
                        -POS_LIMIT
                    } else {
                        wide as i64
                    }
                };
                let child_y = {
                    let wide = d.pos.y as i128 + half(d.size) as i128 + d.speed.y as i128 + half(
                        ts,
                    ) as i128;
                    if wide > POS_LIMIT as i128 {
                        POS_LIMIT
                    } else if wide < -(POS_LIMIT as i128) {
                        -POS_LIMIT
                    } else {
                        wide as i64
                    }
                };
                let mut parent = d;
                parent.last_trail_y = Some(d.pos.y);
                parent.size = shrink_size(d.size, ts);
                proof {
                    // the shed is strict: the child's volume is positive
                    lemma_cube_monotone(ts as int / 2, d.size as int / 2);
                    lemma_cube_monotone(1, ts as int / 2);
                    if parent.size == d.size {
                        assert(volume(parent.size as int) <= volume(d.size as int) - volume(
                            ts as int,
                        ));
                        assert(false);
                    }
                }
                droplets.write(i, parent);
                index.set_radius(i, half(parent.size));
                if let Some(j) = droplets.checkout() {
                    let mut child = *droplets.get(j);
                    child.pos = Vec2 { x: child_x, y: child_y };
                    child.size = ts;
                    droplets.write(j, child);
                    index.insert(j, child_x, child_y, half(ts));
                    proof {
                        assert(trail_child_matches(d, droplets.slots()[j as int], u_s as int,
                            u_x as int));
                    }
                } else {
                    proof {
                        assert(droplets.free_queue().len() == 0);
                    }
                }
                proof {
                    assert(trail_emission_ok(
                        d,
                        droplets.slots()[i as int],
                        *droplets,
                        u_s as int,
                        u_x as int,
                    ));
                }
            }
        }
        proof {
            assert forall|k2: int|
                0 <= k2 < n && !(#[trigger] dpre.slots()[k2]).deleted implies (
            !droplets.slots()[k2].deleted && droplets.slots()[k2].pos == dpre.slots()[k2].pos
                && droplets.slots()[k2].size <= dpre.slots()[k2].size) by {}
            assert(dpre.free_queue().len() == 0 ==> droplets.free_queue().len() == 0);
            assert forall|k: int|
                0 <= k < i && !(#[trigger] pool0.slots()[k]).deleted && pool0.slots()[k].speed.y
                    > spec_gravity_y(dt) && pool0.slots()[k].size >= TRAIL_SIZE_THRESHOLD
                    && pool0.slots()[k].last_trail_y is None implies exists|us: int, ux: int|
                trail_emission_ok(
                    pool0.slots()[k],
                    droplets.slots()[k],
                    *droplets,
                    us,
                    ux,
                ) by {
                let (us, ux) = choose|us: int, ux: int|
                    trail_emission_ok(pool0.slots()[k], dpre.slots()[k], dpre, us, ux);
                assert(!dpre.slots()[k].deleted);
                assert(droplets.slots()[k] == dpre.slots()[k]);
                if exists|c: int|
                    0 <= c < dpre.slots().len() && trail_child_matches(
                        pool0.slots()[k],
                        dpre.slots()[c],
                        us,
                        ux,
                    ) {
                    let c = choose|c: int|
                        0 <= c < dpre.slots().len() && trail_child_matches(
                            pool0.slots()[k],
                            dpre.slots()[c],
                            us,
                            ux,
                        );
                    assert(!dpre.slots()[c].deleted);
                    assert(trail_child_matches(pool0.slots()[k], droplets.slots()[c], us, ux));
                }
                assert(trail_emission_ok(pool0.slots()[k], droplets.slots()[k], *droplets, us, ux));
            }
        }
        i = i + 1;
    }
}

} // verus!
