//! Merge resolution: each proximity event is resolved to a winner and a
//! loser by a total, deterministic tie-break, all winners grow by the
//! volume-conserving rule before any loser is deleted, and every loser is
//! then freed and removed from the index.

use vstd::prelude::*;

use crate::droplets::{all_bounded, Droplets};
use crate::math::{grow_size, half, volume, SIZE_LIMIT};
use crate::spatial::{sync, Pair, SpatialEntry, SpatialIndex};

verus! {

/// One resolved merge: the slot that grows and the slot that goes.
#[derive(Clone, Copy, Debug)]
pub struct MergePair {
    pub keep: usize,
    pub del: usize,
}

/// The key the tie-break keeps of an event's two entries: the larger
/// footprint radius wins, on a radius tie the higher center (greater Y)
/// wins, and if both tie the event's second key wins, so the rule is
/// total and deterministic.
pub open spec fn spec_winner(ea: SpatialEntry, eb: SpatialEntry, a: usize, b: usize) -> usize {
    if ea.radius > eb.radius {
        a
    } else if ea.radius < eb.radius {
        b
    } else if ea.y > eb.y {
        a
    } else {
        b
    }
}

/// The key the tie-break deletes.
pub open spec fn spec_loser(ea: SpatialEntry, eb: SpatialEntry, a: usize, b: usize) -> usize {
    if spec_winner(ea, eb, a, b) == a {
        b
    } else {
        a
    }
}

/// Whether any event names the key `k`.
pub open spec fn key_in_events(events: Seq<Pair>, k: int) -> bool {
    exists|j: int|
        0 <= j < events.len() && ((events[j].a as int) == k || (events[j].b as int) == k)
}

/// An event that shares no key with any other event; chained merges are
/// exactly the events that are not isolated.
pub open spec fn event_isolated(events: Seq<Pair>, j: int) -> bool {
    forall|j2: int|
        0 <= j2 < events.len() && j2 != j ==> (#[trigger] events[j2]).a != events[j].a
            && events[j2].a != events[j].b && events[j2].b != events[j].a && events[j2].b
            != events[j].b
}

/// The merged size against the pair's sizes before the merge: the
/// volume-conserving bracketing of [`grow_size`], saturating above.
pub open spec fn merged_size_ok(r: int, w: int, l: int) -> bool {
    &&& 1 <= r <= SIZE_LIMIT
    &&& r < SIZE_LIMIT ==> volume(r) <= volume(w) + volume(l) < volume(r + 2)
    &&& r == SIZE_LIMIT ==> volume(w) + volume(l) >= volume(SIZE_LIMIT as int)
}

/// Applies this tick's proximity events to the pool and the index.
pub fn merge(droplets: &mut Droplets, index: &mut SpatialIndex, events: &Vec<Pair>)
    requires
        old(droplets).wf(),
        old(index).wf(),
        sync(*old(droplets), *old(index)),
        all_bounded(*old(droplets)),
        forall|j: int|
            0 <= j < events@.len() ==> (#[trigger] events@[j]).a < events@[j].b < old(droplets).capacity(),
    ensures
        final(droplets).wf(),
        final(index).wf(),
        sync(*final(droplets), *final(index)),
        all_bounded(*final(droplets)),
        final(droplets).capacity() == old(droplets).capacity(),
        final(index).events_spec() == old(index).events_spec(),
        // merging deletes losers and grows winners; it creates nothing
        forall|k: int|
            0 <= k < old(droplets).capacity() && !(#[trigger] final(droplets).slots()[k]).deleted
                ==> !old(droplets).slots()[k].deleted,
        // no droplet moves, and only sizes change on the survivors
        forall|k: int|
            0 <= k < old(droplets).capacity() && !(#[trigger] final(droplets).slots()[k]).deleted
                ==> {
                &&& final(droplets).slots()[k].pos == old(droplets).slots()[k].pos
                &&& final(droplets).slots()[k].speed == old(droplets).slots()[k].speed
                &&& final(droplets).slots()[k].seed == old(droplets).slots()[k].seed
                &&& final(droplets).slots()[k].skipping == old(droplets).slots()[k].skipping
                &&& final(droplets).slots()[k].slowing == old(droplets).slots()[k].slowing
                &&& final(droplets).slots()[k].last_trail_y == old(droplets).slots()[k].last_trail_y
            },
        // a slot named by no event is untouched, pool and index alike
        forall|k: int|
            0 <= k < old(droplets).capacity() && !(#[trigger] key_in_events(events@, k)) ==> final(droplets).slots()[k] == old(droplets).slots()[k] && final(index).entries()[k] == old(index).entries()[k],
        // an event between two present entries costs one of the two
        // droplets: its loser is deleted by the end of the tick
        forall|j: int|
            0 <= j < events@.len() && old(index).entries()[(#[trigger] events@[j]).a as int].present
                && old(index).entries()[events@[j].b as int].present ==> final(droplets).slots()[events@[j].a as int].deleted || final(droplets).slots()[events@[
                j].b as int].deleted,
        // an event that shares no key with another is resolved exactly:
        // the tie-break's loser is deleted, its winner survives with the
        // pair's merged volume
        forall|j: int|
            0 <= j < events@.len() && event_isolated(events@, j) && old(index).entries()[(
            #[trigger] events@[j]).a as int].present && old(index).entries()[events@[j].b as int].present ==> {
                let a = events@[j].a;
                let b = events@[j].b;
                let w = spec_winner(
                    old(index).entries()[a as int],
                    old(index).entries()[b as int],
                    a,
                    b,
                );
                let l = spec_loser(
                    old(index).entries()[a as int],
                    old(index).entries()[b as int],
                    a,
                    b,
                );
                &&& final(droplets).slots()[l as int].deleted
                &&& !final(droplets).slots()[w as int].deleted
                &&& merged_size_ok(
                    final(droplets).slots()[w as int].size as int,
                    old(droplets).slots()[w as int].size as int,
                    old(droplets).slots()[l as int].size as int,
                )
            },
        // no events, no change
        events@.len() == 0 ==> {
            &&& final(droplets).slots() == old(droplets).slots()
            &&& final(droplets).free_queue() == old(droplets).free_queue()
            &&& final(index).entries() == old(index).entries()
            &&& final(index).prev_pairs() == old(index).prev_pairs()
        },
{
    let ghost pool0 = *old(droplets);
    let ghost index0 = *old(index);
    let n = droplets.len();
    let m = events.len();
    // resolve every event to a (winner, loser) pair before mutating;
    // `sources` records which event produced each pair, in order
    let mut updates: Vec<MergePair> = Vec::new();
    let ghost mut sources: Seq<int> = Seq::empty();
    let mut j: usize = 0;
    while j < m
        invariant
            j <= m == events@.len(),
            n == pool0.capacity(),
            *droplets == pool0,
            *index == index0,
            index.entries().len() == n,
            forall|jj: int|
                0 <= jj < events@.len() ==> (#[trigger] events@[jj]).a < events@[jj].b < n,
            updates@.len() == 0 || m > 0,
            sources.len() == updates@.len(),
            forall|jj: int|
                0 <= jj < updates@.len() ==> (#[trigger] updates@[jj]).keep < n
                    && updates@[jj].del < n && updates@[jj].keep != updates@[jj].del,
            forall|jj: int|
                0 <= jj < updates@.len() ==> {
                    let j2 = #[trigger] sources[jj];
                    let a = events@[j2].a;
                    let b = events@[j2].b;
                    &&& 0 <= j2 < j
                    &&& index0.entries()[a as int].present
                    &&& index0.entries()[b as int].present
                    &&& updates@[jj].keep == spec_winner(
                        index0.entries()[a as int],
                        index0.entries()[b as int],
                        a,
                        b,
                    )
                    &&& updates@[jj].del == spec_loser(
                        index0.entries()[a as int],
                        index0.entries()[b as int],
                        a,
                        b,
                    )
                },
            forall|jj1: int, jj2: int| 0 <= jj1 < jj2 < sources.len() ==> sources[jj1]
                < sources[jj2],
            forall|j2: int|
                0 <= j2 < j && index0.entries()[(#[trigger] events@[j2]).a as int].present
                    && index0.entries()[events@[j2].b as int].present ==> exists|jj: int|
                    0 <= jj < sources.len() && sources[jj] == j2,
        decreases m - j,
    {
        let a = events[j].a;
        let b = events[j].b;
        if index.is_present(a) && index.is_present(b) {
            let ea = *index.get(a);
            let eb = *index.get(b);
            let pair = if ea.radius > eb.radius {
                MergePair { keep: a, del: b }
            } else if ea.radius < eb.radius {
                MergePair { keep: b, del: a }
            } else if ea.y > eb.y {
                MergePair { keep: a, del: b }
            } else {
                MergePair { keep: b, del: a }
            };
            let ghost updates_before = updates@;
            let ghost sources_before = sources;
            updates.push(pair);
            proof {
                sources = sources.push(j as int);
                assert(updates@[updates@.len() - 1] == pair);
                assert(pair.keep == spec_winner(
                    index0.entries()[a as int],
                    index0.entries()[b as int],
                    a,
                    b,
                ));
                assert(pair.del == spec_loser(
                    index0.entries()[a as int],
                    index0.entries()[b as int],
                    a,
                    b,
                ));
                assert forall|j2: int|
                    0 <= j2 < j + 1 && index0.entries()[(#[trigger] events@[j2]).a as int].present
                        && index0.entries()[events@[j2].b as int].present implies exists|jj: int|
                    0 <= jj < sources.len() && sources[jj] == j2 by {
                    if j2 < j {
                        let jj = choose|jj: int|
                            0 <= jj < sources_before.len() && sources_before[jj] == j2;
                        assert(sources[jj] == j2);
                    } else {
                        assert(sources[sources.len() - 1] == j2);
                    }
                }
            }
        }
        j = j + 1;
    }
    // growth pass: apply every merge's size gain before any deletion, so
    // chained merges in one tick never read a freed slot
    let u = updates.len();
    let mut p: usize = 0;
    while p < u
        invariant
            p <= u == updates@.len(),
            n == droplets.capacity(),
            n == pool0.capacity(),
            pool0.wf(),
            index0.wf(),
            sync(pool0, index0),
            droplets.wf(),
            index.wf(),
            sync(*droplets, *index),
            all_bounded(*droplets),
            index.events_spec() == index0.events_spec(),
            index.prev_pairs() == index0.prev_pairs(),
            m == events@.len(),
            forall|jj: int|
                0 <= jj < events@.len() ==> (#[trigger] events@[jj]).a < events@[jj].b < n,
            sources.len() == updates@.len(),
            forall|jj: int|
                0 <= jj < updates@.len() ==> (#[trigger] updates@[jj]).keep < n
                    && updates@[jj].del < n && updates@[jj].keep != updates@[jj].del,
            forall|jj: int|
                0 <= jj < updates@.len() ==> {
                    let j2 = #[trigger] sources[jj];
                    let a = events@[j2].a;
                    let b = events@[j2].b;
                    &&& 0 <= j2 < m
                    &&& index0.entries()[a as int].present
                    &&& index0.entries()[b as int].present
                    &&& updates@[jj].keep == spec_winner(
                        index0.entries()[a as int],
                        index0.entries()[b as int],
                        a,
                        b,
                    )
                    &&& updates@[jj].del == spec_loser(
                        index0.entries()[a as int],
                        index0.entries()[b as int],
                        a,
                        b,
                    )
                },
            forall|jj1: int, jj2: int| 0 <= jj1 < jj2 < sources.len() ==> sources[jj1]
                < sources[jj2],
            forall|j2: int|
                0 <= j2 < m && index0.entries()[(#[trigger] events@[j2]).a as int].present
                    && index0.entries()[events@[j2].b as int].present ==> exists|jj: int|
                    0 <= jj < sources.len() && sources[jj] == j2,
            droplets.free_queue() == pool0.free_queue(),
            forall|k: int|
                0 <= k < n ==> (#[trigger] droplets.slots()[k]).deleted == pool0.slots()[
                    k].deleted,
            forall|k: int|
                0 <= k < n ==> {
                    &&& (#[trigger] droplets.slots()[k]).pos == pool0.slots()[k].pos
                    &&& droplets.slots()[k].speed == pool0.slots()[k].speed
                    &&& droplets.slots()[k].seed == pool0.slots()[k].seed
                    &&& droplets.slots()[k].skipping == pool0.slots()[k].skipping
                    &&& droplets.slots()[k].slowing == pool0.slots()[k].slowing
                    &&& droplets.slots()[k].last_trail_y == pool0.slots()[k].last_trail_y
                },
            forall|k: int|
                0 <= k < n && !(#[trigger] key_in_events(events@, k)) ==> droplets.slots()[k]
                    == pool0.slots()[k] && index.entries()[k] == index0.entries()[k],
            // for an isolated event, the winner is grown once, with the
            // loser's untouched size, exactly when its pair is passed
            forall|j2: int|
                0 <= j2 < m && event_isolated(events@, j2) && index0.entries()[(
                #[trigger] events@[j2]).a as int].present && index0.entries()[events@[
                    j2].b as int].present ==> {
                    let a = events@[j2].a;
                    let b = events@[j2].b;
                    let w = spec_winner(
                        index0.entries()[a as int],
                        index0.entries()[b as int],
                        a,
                        b,
                    );
                    let l = spec_loser(
                        index0.entries()[a as int],
                        index0.entries()[b as int],
                        a,
                        b,
                    );
                    &&& droplets.slots()[l as int].size == pool0.slots()[l as int].size
                    &&& exists|jj: int|
                        0 <= jj < sources.len() && sources[jj] == j2 && (p <= jj
                            ==> droplets.slots()[w as int].size == pool0.slots()[w as int].size) && (
                        p > jj ==> merged_size_ok(
                            droplets.slots()[w as int].size as int,
                            pool0.slots()[w as int].size as int,
                            pool0.slots()[l as int].size as int,
                        ))
                },
            u == 0 ==> *droplets == pool0 && *index == index0,
        decreases u - p,
    {
        let keep = updates[p].keep;
        let del = updates[p].del;
        proof {
            let j2 = sources[p as int];
            assert(keep != del && keep < n && del < n);
        }
        let ghost dpre = *droplets;
        let ghost ipre = *index;
        if index.is_present(keep) && index.is_present(del) {
            let del_size = droplets.get(del).size;
            let keep_d = *droplets.get(keep);
            let mut grown = keep_d;
            grown.size = grow_size(keep_d.size, del_size);
            droplets.write(keep, grown);
            index.set_radius(keep, half(grown.size));
        }
        proof {
            // the untouched-key clause: this pair's keys come from its
            // source event
            assert forall|k: int|
                0 <= k < n && !(#[trigger] key_in_events(events@, k)) implies droplets.slots()[k]
                == dpre.slots()[k] && index.entries()[k] == ipre.entries()[k] by {
                let j2 = sources[p as int];
                if k == keep as int {
                    assert((events@[j2].a as int) == k || (events@[j2].b as int) == k);
                    assert(false);
                }
            }
            // the isolated-event clause
            assert forall|j2: int|
                0 <= j2 < m && event_isolated(events@, j2) && index0.entries()[(
                #[trigger] events@[j2]).a as int].present && index0.entries()[events@[
                    j2].b as int].present implies {
                let a = events@[j2].a;
                let b = events@[j2].b;
                let w = spec_winner(index0.entries()[a as int], index0.entries()[b as int], a, b);
                let l = spec_loser(index0.entries()[a as int], index0.entries()[b as int], a, b);
                &&& droplets.slots()[l as int].size == pool0.slots()[l as int].size
                &&& exists|jj: int|
                    0 <= jj < sources.len() && sources[jj] == j2 && (p + 1 <= jj
                        ==> droplets.slots()[w as int].size == pool0.slots()[w as int].size) && (p
                        + 1 > jj ==> merged_size_ok(
                        droplets.slots()[w as int].size as int,
                        pool0.slots()[w as int].size as int,
                        pool0.slots()[l as int].size as int,
                    ))
            } by {
                let a = events@[j2].a;
                let b = events@[j2].b;
                let w = spec_winner(index0.entries()[a as int], index0.entries()[b as int], a, b);
                let l = spec_loser(index0.entries()[a as int], index0.entries()[b as int], a, b);
                let jj = choose|jj: int|
                    0 <= jj < sources.len() && sources[jj] == j2 && (p <= jj ==> dpre.slots()[
                        w as int].size == pool0.slots()[w as int].size) && (p > jj
                        ==> merged_size_ok(
                        dpre.slots()[w as int].size as int,
                        pool0.slots()[w as int].size as int,
                        pool0.slots()[l as int].size as int,
                    ));
                // this iteration's pair touches w or l only if it is the
                // isolated event's own pair
                let jp = sources[p as int];
                if keep as int == w as int || keep as int == l as int || del as int == w as int
                    || del as int == l as int {
                    assert(events@[jp].a == events@[j2].a || events@[jp].a == events@[j2].b
                        || events@[jp].b == events@[j2].a || events@[jp].b == events@[j2].b);
                    assert(jp == j2);
                    assert(p as int == jj) by {
                        if (p as int) < jj {
                            assert(sources[p as int] < sources[jj]);
                        }
                        if (p as int) > jj {
                            assert(sources[jj] < sources[p as int]);
                        }
                    }
                    assert(keep as int == w as int && del as int == l as int);
                    assert(p as int <= jj);
                    assert(dpre.slots()[w as int].size == pool0.slots()[w as int].size);
                    assert(dpre.slots()[l as int].size == pool0.slots()[l as int].size);
                    // the pair's entries are present, so the growth ran
                    assert(ipre.entries()[keep as int].present);
                    assert(ipre.entries()[del as int].present);
                    assert(merged_size_ok(
                        droplets.slots()[w as int].size as int,
                        pool0.slots()[w as int].size as int,
                        pool0.slots()[l as int].size as int,
                    ));
                } else {
                    assert(droplets.slots()[w as int].size == dpre.slots()[w as int].size);
                    assert(droplets.slots()[l as int].size == dpre.slots()[l as int].size);
                }
                assert(sources[jj] == j2);
            }
        }
        p = p + 1;
    }
    // deletion pass: free every loser and drop its footprint; a loser
    // named twice is freed only once
    let mut q: usize = 0;
    let ghost mid_pool = *droplets;
    let ghost mid_index = *index;
    while q < u
        invariant
            q <= u == updates@.len(),
            n == droplets.capacity(),
            n == mid_pool.capacity(),
            pool0.wf(),
            index0.wf(),
            sync(pool0, index0),
            droplets.wf(),
            index.wf(),
            sync(*droplets, *index),
            all_bounded(*droplets),
            index.events_spec() == mid_index.events_spec(),
            m == events@.len(),
            forall|jj: int|
                0 <= jj < events@.len() ==> (#[trigger] events@[jj]).a < events@[jj].b < n,
            sources.len() == updates@.len(),
            forall|jj: int|
                0 <= jj < updates@.len() ==> (#[trigger] updates@[jj]).keep < n
                    && updates@[jj].del < n && updates@[jj].keep != updates@[jj].del,
            forall|jj: int|
                0 <= jj < updates@.len() ==> {
                    let j2 = #[trigger] sources[jj];
                    let a = events@[j2].a;
                    let b = events@[j2].b;
                    &&& 0 <= j2 < m
                    &&& index0.entries()[a as int].present
                    &&& index0.entries()[b as int].present
                    &&& updates@[jj].keep == spec_winner(
                        index0.entries()[a as int],
                        index0.entries()[b as int],
                        a,
                        b,
                    )
                    &&& updates@[jj].del == spec_loser(
                        index0.entries()[a as int],
                        index0.entries()[b as int],
                        a,
                        b,
                    )
                },
            forall|jj1: int, jj2: int| 0 <= jj1 < jj2 < sources.len() ==> sources[jj1]
                < sources[jj2],
            forall|j2: int|
                0 <= j2 < m && index0.entries()[(#[trigger] events@[j2]).a as int].present
                    && index0.entries()[events@[j2].b as int].present ==> exists|jj: int|
                    0 <= jj < sources.len() && sources[jj] == j2,
            forall|k: int|
                0 <= k < n && !(#[trigger] droplets.slots()[k]).deleted ==> droplets.slots()[k]
                    == mid_pool.slots()[k] && !mid_pool.slots()[k].deleted,
            forall|jj: int|
                0 <= jj < q ==> droplets.slots()[(#[trigger] updates@[jj]).del as int].deleted,
            forall|k: int|
                0 <= k < n && !(#[trigger] key_in_events(events@, k)) ==> droplets.slots()[k]
                    == mid_pool.slots()[k] && index.entries()[k] == mid_index.entries()[k],
            // an isolated event's winner is never freed
            forall|j2: int|
                0 <= j2 < m && event_isolated(events@, j2) && index0.entries()[(
                #[trigger] events@[j2]).a as int].present && index0.entries()[events@[
                    j2].b as int].present ==> !droplets.slots()[spec_winner(
                    index0.entries()[events@[j2].a as int],
                    index0.entries()[events@[j2].b as int],
                    events@[j2].a,
                    events@[j2].b,
                ) as int].deleted,
            u == 0 ==> *droplets == mid_pool && *index == mid_index,
        decreases u - q,
    {
        let del = updates[q].del;
        proof {
            let j2 = sources[q as int];
            assert(events@[j2].a < events@[j2].b < n);
            assert(updates@[q as int].del == events@[j2].a || updates@[q as int].del
                == events@[j2].b);
        }
        let ghost dpre = *droplets;
        let ghost ipre = *index;
        if index.is_present(del) {
            droplets.free(del);
            index.remove(del);
        }
        proof {
            assert forall|k: int|
                0 <= k < n && !(#[trigger] key_in_events(events@, k)) implies droplets.slots()[k]
                == dpre.slots()[k] && index.entries()[k] == ipre.entries()[k] by {
                let j2 = sources[q as int];
                if k == del as int {
                    assert((events@[j2].a as int) == k || (events@[j2].b as int) == k);
                    assert(false);
                }
            }
            assert forall|j2: int|
                0 <= j2 < m && event_isolated(events@, j2) && index0.entries()[(
                #[trigger] events@[j2]).a as int].present && index0.entries()[events@[
                    j2].b as int].present implies !droplets.slots()[spec_winner(
                index0.entries()[events@[j2].a as int],
                index0.entries()[events@[j2].b as int],
                events@[j2].a,
                events@[j2].b,
            ) as int].deleted by {
                let a = events@[j2].a;
                let b = events@[j2].b;
                let w = spec_winner(index0.entries()[a as int], index0.entries()[b as int], a, b);
                let jq = sources[q as int];
                if del as int == w as int {
                    assert(events@[jq].a == events@[j2].a || events@[jq].a == events@[j2].b
                        || events@[jq].b == events@[j2].a || events@[jq].b == events@[j2].b);
                    assert(jq == j2);
                    assert(updates@[q as int].del == spec_loser(
                        index0.entries()[a as int],
                        index0.entries()[b as int],
                        a,
                        b,
                    ));
                    assert(false);
                }
            }
            assert forall|jj: int|
                0 <= jj < q + 1 implies droplets.slots()[(
            #[trigger] updates@[jj]).del as int].deleted by {
                if jj < q {
                    assert(dpre.slots()[updates@[jj].del as int].deleted);
                } else {
                    assert(updates@[jj].del == del);
                    if !ipre.entries()[del as int].present {
                        assert(dpre.slots()[del as int].deleted);
                    }
                }
            }
        }
        q = q + 1;
    }
    proof {
        if u == 0 {
            assert(*droplets == pool0);
            assert(*index == index0);
        }
        assert forall|j2: int|
            0 <= j2 < events@.len() && index0.entries()[(#[trigger] events@[j2]).a as int].present
                && index0.entries()[events@[j2].b as int].present implies (droplets.slots()[events@[
            j2].a as int].deleted || droplets.slots()[events@[j2].b as int].deleted) by {
            let jj = choose|jj: int| 0 <= jj < sources.len() && sources[jj] == j2;
            assert(droplets.slots()[updates@[jj].del as int].deleted);
            assert(updates@[jj].del == events@[j2].a || updates@[jj].del == events@[j2].b);
        }
        // the isolated-event resolution: the loser is the deleted side,
        // and the surviving winner kept its grown size through deletion
        assert forall|j2: int|
            0 <= j2 < events@.len() && event_isolated(events@, j2) && index0.entries()[(
            #[trigger] events@[j2]).a as int].present && index0.entries()[events@[
                j2].b as int].present implies {
            let a = events@[j2].a;
            let b = events@[j2].b;
            let w = spec_winner(index0.entries()[a as int], index0.entries()[b as int], a, b);
            let l = spec_loser(index0.entries()[a as int], index0.entries()[b as int], a, b);
            &&& droplets.slots()[l as int].deleted
            &&& !droplets.slots()[w as int].deleted
            &&& merged_size_ok(
                droplets.slots()[w as int].size as int,
                pool0.slots()[w as int].size as int,
                pool0.slots()[l as int].size as int,
            )
        } by {
            let a = events@[j2].a;
            let b = events@[j2].b;
            let w = spec_winner(index0.entries()[a as int], index0.entries()[b as int], a, b);
            let l = spec_loser(index0.entries()[a as int], index0.entries()[b as int], a, b);
            let jj = choose|jj: int| 0 <= jj < sources.len() && sources[jj] == j2;
            assert(droplets.slots()[updates@[jj].del as int].deleted);
            assert(updates@[jj].del == l);
            assert(!droplets.slots()[w as int].deleted);
            assert(droplets.slots()[w as int] == mid_pool.slots()[w as int]);
            let jjb = choose|jjb: int|
                0 <= jjb < sources.len() && sources[jjb] == j2 && ((u as int) <= jjb
                    ==> mid_pool.slots()[w as int].size == pool0.slots()[w as int].size) && ((
                u as int) > jjb ==> merged_size_ok(
                    mid_pool.slots()[w as int].size as int,
                    pool0.slots()[w as int].size as int,
                    pool0.slots()[l as int].size as int,
                ));
            assert((u as int) > jjb);
        }
    }
}

} // verus!
