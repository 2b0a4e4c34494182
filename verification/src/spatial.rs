//! Broad-phase proximity index over circular footprints.
//!
//! Each droplet slot owns at most one entry, keyed by its slot index. The
//! index keeps the set of overlapping pairs found by the last [`SpatialIndex::update`]
//! and reports, per update, the pairs that began to intersect since the
//! one before: the tick's proximity events.

use vstd::prelude::*;

verus! {

/// Bound on coordinates and radii the index accepts, so squared distances
/// fit the machine arithmetic.
pub const COORD_LIMIT: i64 = 1_000_000_000_000_000;

/// One tracked circular footprint.
#[derive(Clone, Copy, Debug)]
pub struct SpatialEntry {
    /// Whether the key currently owns an entry.
    pub present: bool,
    /// Center, in milli-units.
    pub x: i64,
    /// Center, in milli-units.
    pub y: i64,
    /// Radius, in milli-units.
    pub radius: i64,
}

/// An unordered pair of keys, stored with `a < b`.
#[derive(Clone, Copy, PartialEq, Eq, Structural, Debug)]
pub struct Pair {
    pub a: usize,
    pub b: usize,
}

/// Whether two footprints touch or overlap: center distance at most the
/// sum of the radii.
pub open spec fn overlap(e1: SpatialEntry, e2: SpatialEntry) -> bool {
    (e1.x - e2.x) * (e1.x - e2.x) + (e1.y - e2.y) * (e1.y - e2.y) <= (e1.radius + e2.radius) * (
    e1.radius + e2.radius)
}

/// Whether `p` names two distinct present entries whose footprints overlap.
pub open spec fn pair_overlaps(s: Seq<SpatialEntry>, p: Pair) -> bool {
    &&& p.a < p.b < s.len()
    &&& s[p.a as int].present
    &&& s[p.b as int].present
    &&& overlap(s[p.a as int], s[p.b as int])
}

/// Strict lexicographic order on pairs.
pub open spec fn pair_lt(p: Pair, q: Pair) -> bool {
    p.a < q.a || (p.a == q.a && p.b < q.b)
}

/// Bounds that every present entry satisfies.
pub open spec fn entry_bounded(e: SpatialEntry) -> bool {
    -COORD_LIMIT <= e.x <= COORD_LIMIT && -COORD_LIMIT <= e.y <= COORD_LIMIT && 0 <= e.radius
        <= COORD_LIMIT
}

/// The index mirrors the slot pool: each live slot owns the entry under
/// its own index, placed at the droplet's position with radius `size / 2`,
/// and free slots own none.
pub open spec fn sync(pool: crate::droplets::Droplets, index: SpatialIndex) -> bool {
    &&& index.entries().len() == pool.slots().len()
    &&& forall|k: int|
        0 <= k < pool.slots().len() ==> ((#[trigger] index.entries()[k]).present
            <==> !pool.slots()[k].deleted)
    &&& forall|k: int|
        0 <= k < pool.slots().len() && !(#[trigger] pool.slots()[k]).deleted ==> {
            &&& index.entries()[k].x == pool.slots()[k].pos.x
            &&& index.entries()[k].y == pool.slots()[k].pos.y
            &&& index.entries()[k].radius == pool.slots()[k].size / 2
        }
}

/// An index whose snapshot already agrees with its entries' overlaps, as
/// after an update over unmoved footprints: the next update reports no
/// events.
pub open spec fn settled_index(index: SpatialIndex) -> bool {
    forall|p: Pair| #[trigger]
        index.prev_pairs().contains(p) <==> pair_overlaps(index.entries(), p)
}

/// The broad-phase index: an entry per slot key, the overlap snapshot of
/// the last update, and that update's begin-intersect events.
pub struct SpatialIndex {
    entries: Vec<SpatialEntry>,
    prev: Vec<Pair>,
    events: Vec<Pair>,
}

/// Exact overlap test, carried out in wide arithmetic.
fn overlaps_exec(e1: &SpatialEntry, e2: &SpatialEntry) -> (r: bool)
    requires
        entry_bounded(*e1),
        entry_bounded(*e2),
    ensures
        r == overlap(*e1, *e2),
{
    let dx: i128 = e1.x as i128 - e2.x as i128;
    let dy: i128 = e1.y as i128 - e2.y as i128;
    let rr: i128 = e1.radius as i128 + e2.radius as i128;
    proof {
        assert(dx * dx <= 0x1000_0000_0000_0000_0000_0000_0000_0000i128 && dy * dy
            <= 0x1000_0000_0000_0000_0000_0000_0000_0000i128 && rr * rr
            <= 0x1000_0000_0000_0000_0000_0000_0000_0000i128) by (nonlinear_arith)
            requires
                -2_000_000_000_000_000 <= dx <= 2_000_000_000_000_000,
                -2_000_000_000_000_000 <= dy <= 2_000_000_000_000_000,
                0 <= rr <= 2_000_000_000_000_000,
        ;
        assert(dx * dx >= 0 && dy * dy >= 0) by (nonlinear_arith);
    }
    dx * dx + dy * dy <= rr * rr
}

/// Linear membership test.
fn contains_pair(v: &Vec<Pair>, p: Pair) -> (r: bool)
    ensures
        r == v@.contains(p),
{
    let n = v.len();
    let mut j: usize = 0;
    while j < n
        invariant
            j <= n == v@.len(),
            forall|jj: int| 0 <= jj < j ==> v@[jj] != p,
        decreases n - j,
    {
        if v[j] == p {
            assert(v@.contains(p));
            return true;
        }
        j = j + 1;
    }
    assert(!v@.contains(p));
    false
}

impl SpatialIndex {
    /// The entry of each key.
    pub closed spec fn entries(&self) -> Seq<SpatialEntry> {
        self.entries@
    }

    /// The overlap snapshot taken by the last update.
    pub closed spec fn prev_pairs(&self) -> Seq<Pair> {
        self.prev@
    }

    /// The begin-intersect events of the last update.
    pub closed spec fn events_spec(&self) -> Seq<Pair> {
        self.events@
    }

    /// Well-formedness: present entries are bounded; the snapshot names
    /// valid ordered pairs without duplicates.
    pub open spec fn wf(&self) -> bool {
        &&& forall|k: int|
            0 <= k < self.entries().len() && (#[trigger] self.entries()[k]).present
                ==> entry_bounded(self.entries()[k])
        &&& forall|j: int|
            0 <= j < self.prev_pairs().len() ==> (#[trigger] self.prev_pairs()[j]).a
                < self.prev_pairs()[j].b < self.entries().len()
        &&& forall|j1: int, j2: int|
            0 <= j1 < j2 < self.prev_pairs().len() ==> self.prev_pairs()[j1]
                != self.prev_pairs()[j2]
        &&& forall|j: int|
            0 <= j < self.events_spec().len() ==> (#[trigger] self.events_spec()[j]).a
                < self.events_spec()[j].b < self.entries().len()
    }

    /// An index of `capacity` keys, all without entries, no snapshot and
    /// no events.
    pub fn with_capacity(capacity: usize) -> (r: SpatialIndex)
        ensures
            r.wf(),
            r.entries().len() == capacity,
            forall|k: int| 0 <= k < capacity ==> !(#[trigger] r.entries()[k]).present,
            r.prev_pairs().len() == 0,
            r.events_spec().len() == 0,
    {
        let mut entries: Vec<SpatialEntry> = Vec::with_capacity(capacity);
        for i in 0..capacity
            invariant
                entries@.len() == i,
                forall|k: int| 0 <= k < i ==> !(#[trigger] entries@[k]).present,
        {
            entries.push(SpatialEntry { present: false, x: 0, y: 0, radius: 0 });
        }
        SpatialIndex { entries, prev: Vec::new(), events: Vec::new() }
    }

    /// Number of keys.
    pub fn len(&self) -> (r: usize)
        ensures
            r == self.entries().len(),
    {
        self.entries.len()
    }

    /// The entry of a key.
    pub fn get(&self, key: usize) -> (r: &SpatialEntry)
        requires
            key < self.entries().len(),
        ensures
            *r == self.entries()[key as int],
    {
        &self.entries[key]
    }

    /// Whether a key owns an entry.
    pub fn is_present(&self, key: usize) -> (r: bool)
        requires
            key < self.entries().len(),
        ensures
            r == self.entries()[key as int].present,
    {
        self.entries[key].present
    }

    /// Gives a key a fresh entry.
    pub fn insert(&mut self, key: usize, x: i64, y: i64, radius: i64)
        requires
            old(self).wf(),
            key < old(self).entries().len(),
            !old(self).entries()[key as int].present,
            -COORD_LIMIT <= x <= COORD_LIMIT,
            -COORD_LIMIT <= y <= COORD_LIMIT,
            0 <= radius <= COORD_LIMIT,
        ensures
            final(self).wf(),
            final(self).entries() == old(self).entries().update(
                key as int,
                SpatialEntry { present: true, x, y, radius },
            ),
            final(self).prev_pairs() == old(self).prev_pairs(),
            final(self).events_spec() == old(self).events_spec(),
    {
        let e = &mut self.entries[key];
        *e = SpatialEntry { present: true, x, y, radius };
        proof {
            assert(self.prev@ == old(self).prev_pairs());
            assert(self.events@ == old(self).events_spec());
            assert(self.entries@.len() == old(self).entries().len());
            assert forall|j: int| 0 <= j < self.prev@.len() implies (#[trigger] self.prev@[j]).a
                < self.prev@[j].b < self.entries@.len() by {
                assert(old(self).prev_pairs()[j].a < old(self).prev_pairs()[j].b < old(
                    self,
                ).entries().len());
            }
            assert forall|j: int| 0 <= j < self.events@.len() implies (#[trigger] self.events@[j]).a
                < self.events@[j].b < self.entries@.len() by {
                assert(old(self).events_spec()[j].a < old(self).events_spec()[j].b < old(
                    self,
                ).entries().len());
            }
        }
    }

    /// Moves a key's footprint.
    pub fn set_position(&mut self, key: usize, x: i64, y: i64)
        requires
            old(self).wf(),
            key < old(self).entries().len(),
            old(self).entries()[key as int].present,
            -COORD_LIMIT <= x <= COORD_LIMIT,
            -COORD_LIMIT <= y <= COORD_LIMIT,
        ensures
            final(self).wf(),
            final(self).entries() == old(self).entries().update(
                key as int,
                SpatialEntry { x, y, ..old(self).entries()[key as int] },
            ),
            final(self).prev_pairs() == old(self).prev_pairs(),
            final(self).events_spec() == old(self).events_spec(),
    {
        let e = &mut self.entries[key];
        e.x = x;
        e.y = y;
        proof {
            assert(self.prev@ == old(self).prev_pairs());
            assert(self.events@ == old(self).events_spec());
            assert(self.entries@.len() == old(self).entries().len());
            assert forall|j: int| 0 <= j < self.prev@.len() implies (#[trigger] self.prev@[j]).a
                < self.prev@[j].b < self.entries@.len() by {
                assert(old(self).prev_pairs()[j].a < old(self).prev_pairs()[j].b < old(
                    self,
                ).entries().len());
            }
            assert forall|j: int| 0 <= j < self.events@.len() implies (#[trigger] self.events@[j]).a
                < self.events@[j].b < self.entries@.len() by {
                assert(old(self).events_spec()[j].a < old(self).events_spec()[j].b < old(
                    self,
                ).entries().len());
            }
        }
    }

    /// Resizes a key's footprint.
    pub fn set_radius(&mut self, key: usize, radius: i64)
        requires
            old(self).wf(),
            key < old(self).entries().len(),
            old(self).entries()[key as int].present,
            0 <= radius <= COORD_LIMIT,
        ensures
            final(self).wf(),
            final(self).entries() == old(self).entries().update(
                key as int,
                SpatialEntry { radius, ..old(self).entries()[key as int] },
            ),
            final(self).prev_pairs() == old(self).prev_pairs(),
            final(self).events_spec() == old(self).events_spec(),
    {
        let e = &mut self.entries[key];
        e.radius = radius;
        proof {
            assert(self.prev@ == old(self).prev_pairs());
            assert(self.events@ == old(self).events_spec());
            assert(self.entries@.len() == old(self).entries().len());
            assert forall|j: int| 0 <= j < self.prev@.len() implies (#[trigger] self.prev@[j]).a
                < self.prev@[j].b < self.entries@.len() by {
                assert(old(self).prev_pairs()[j].a < old(self).prev_pairs()[j].b < old(
                    self,
                ).entries().len());
            }
            assert forall|j: int| 0 <= j < self.events@.len() implies (#[trigger] self.events@[j]).a
                < self.events@[j].b < self.entries@.len() by {
                assert(old(self).events_spec()[j].a < old(self).events_spec()[j].b < old(
                    self,
                ).entries().len());
            }
        }
    }

    /// Takes a key's entry away and drops the snapshot pairs that named
    /// it, as removing a tracked object removes its interactions.
    pub fn remove(&mut self, key: usize)
        requires
            old(self).wf(),
            key < old(self).entries().len(),
        ensures
            final(self).wf(),
            final(self).entries() == old(self).entries().update(
                key as int,
                SpatialEntry { present: false, ..old(self).entries()[key as int] },
            ),
            forall|p: Pair|
                final(self).prev_pairs().contains(p) <==> (old(self).prev_pairs().contains(p)
                    && p.a != key && p.b != key),
            final(self).events_spec() == old(self).events_spec(),
    {
        let ghost pre = *self;
        let e = &mut self.entries[key];
        e.present = false;
        let n = self.prev.len();
        let mut kept: Vec<Pair> = Vec::new();
        let mut j: usize = 0;
        while j < n
            invariant
                j <= n == pre.prev_pairs().len(),
                self.prev@ == pre.prev_pairs(),
                self.events@ == pre.events_spec(),
                key < pre.entries().len(),
                self.entries@ == pre.entries().update(
                    key as int,
                    SpatialEntry { present: false, ..pre.entries()[key as int] },
                ),
                pre.wf(),
                forall|jj1: int, jj2: int|
                    0 <= jj1 < jj2 < pre.prev_pairs().len() ==> pre.prev_pairs()[jj1]
                        != pre.prev_pairs()[jj2],
                forall|p: Pair|
                    kept@.contains(p) <==> (exists|jj: int|
                        0 <= jj < j && pre.prev_pairs()[jj] == p && p.a != key && p.b != key),
                forall|jj1: int, jj2: int| 0 <= jj1 < jj2 < kept@.len() ==> kept@[jj1] != kept@[jj2],
                forall|jj: int|
                    0 <= jj < kept@.len() ==> (#[trigger] kept@[jj]).a < kept@[jj].b
                        < pre.entries().len(),
            decreases n - j,
        {
            let p = self.prev[j];
            let ghost kept_before = kept@;
            if p.a != key && p.b != key {
                proof {
                    if kept@.contains(p) {
                        let jj = choose|jj: int|
                            0 <= jj < j && pre.prev_pairs()[jj] == p && p.a != key && p.b != key;
                        assert(pre.prev_pairs()[jj] == pre.prev_pairs()[j as int]);
                        assert(false);
                    }
                }
                kept.push(p);
            }
            proof {
                assert forall|q: Pair| kept@.contains(q) implies (exists|jj: int|
                    0 <= jj < j + 1 && pre.prev_pairs()[jj] == q && q.a != key && q.b != key) by {
                    let idx = choose|idx: int| 0 <= idx < kept@.len() && kept@[idx] == q;
                    if idx < kept_before.len() {
                        assert(kept_before[idx] == q);
                        assert(kept_before.contains(q));
                    } else {
                        assert(q == p);
                        assert(pre.prev_pairs()[j as int] == q);
                    }
                }
                assert forall|q: Pair|
                    (exists|jj: int|
                        0 <= jj < j + 1 && pre.prev_pairs()[jj] == q && q.a != key && q.b
                            != key) implies kept@.contains(q) by {
                    let jj = choose|jj: int|
                        0 <= jj < j + 1 && pre.prev_pairs()[jj] == q && q.a != key && q.b != key;
                    if jj < j {
                        assert(kept_before.contains(q));
                        let idx = choose|idx: int|
                            0 <= idx < kept_before.len() && kept_before[idx] == q;
                        assert(kept@[idx] == q);
                    } else {
                        assert(q == p);
                        assert(kept@[kept@.len() - 1] == q);
                    }
                }
            }
            j = j + 1;
        }
        self.prev = kept;
        proof {
            assert forall|p: Pair| #[trigger]
                self.prev@.contains(p) implies (pre.prev_pairs().contains(p) && p.a != key && p.b
                != key) by {
                let jj = choose|jj: int|
                    0 <= jj < n && pre.prev_pairs()[jj] == p && p.a != key && p.b != key;
                assert(pre.prev_pairs().contains(p)) by {
                    assert(pre.prev_pairs()[jj] == p);
                }
            }
            assert forall|p: Pair|
                pre.prev_pairs().contains(p) && p.a != key && p.b != key implies #[trigger]
            self.prev@.contains(p) by {
                let jj = choose|jj: int| 0 <= jj < n && pre.prev_pairs()[jj] == p;
            }
            assert(self.entries@.len() == pre.entries().len());
            assert forall|jj: int|
                0 <= jj < self.events@.len() implies (#[trigger] self.events@[jj]).a
                < self.events@[jj].b < self.entries@.len() by {
                assert(pre.events_spec()[jj].a < pre.events_spec()[jj].b < pre.entries().len());
            }
        }
    }

    /// Recomputes the overlap snapshot and reports as events the ordered
    /// pairs of present entries that overlap now but did not appear in
    /// the previous snapshot.
    pub fn update(&mut self)
        requires
            old(self).wf(),
        ensures
            final(self).wf(),
            final(self).entries() == old(self).entries(),
            forall|p: Pair|
                final(self).prev_pairs().contains(p) <==> pair_overlaps(old(self).entries(), p),
            forall|p: Pair|
                final(self).events_spec().contains(p) <==> (pair_overlaps(old(self).entries(), p)
                    && !old(self).prev_pairs().contains(p)),
            forall|j1: int, j2: int|
                0 <= j1 < j2 < final(self).events_spec().len() ==> final(self).events_spec()[j1]
                    != final(self).events_spec()[j2],
    {
        let ghost s = self.entries@;
        let n = self.entries.len();
        let mut curr: Vec<Pair> = Vec::new();
        let mut a: usize = 0;
        while a < n
            invariant
                a <= n == s.len(),
                self.entries@ == s,
                old(self).wf(),
                s == old(self).entries(),
                forall|p: Pair|
                    curr@.contains(p) <==> (pair_overlaps(s, p) && (p.a as int) < a),
                forall|j: int| 0 <= j < curr@.len() ==> (#[trigger] curr@[j]).a < a,
                forall|j1: int, j2: int|
                    0 <= j1 < j2 < curr@.len() ==> pair_lt(curr@[j1], curr@[j2]),
            decreases n - a,
        {
            let mut b: usize = a + 1;
            while b < n
                invariant
                    a < n == s.len(),
                    a + 1 <= b <= n,
                    self.entries@ == s,
                    old(self).wf(),
                    s == old(self).entries(),
                    forall|p: Pair|
                        curr@.contains(p) <==> (pair_overlaps(s, p) && ((p.a as int) < a || (
                        p.a as int == a && (p.b as int) < b))),
                    forall|j: int|
                        0 <= j < curr@.len() ==> ((#[trigger] curr@[j]).a < a || (curr@[j].a == a
                            && curr@[j].b < b)),
                    forall|j1: int, j2: int|
                        0 <= j1 < j2 < curr@.len() ==> pair_lt(curr@[j1], curr@[j2]),
                decreases n - b,
            {
                let push_it = if self.entries[a].present && self.entries[b].present {
                    overlaps_exec(&self.entries[a], &self.entries[b])
                } else {
                    false
                };
                let ghost before = curr@;
                if push_it {
                    curr.push(Pair { a, b });
                }
                proof {
                    let q = Pair { a, b };
                    assert(push_it == pair_overlaps(s, q));
                    assert forall|p: Pair| curr@.contains(p) implies (pair_overlaps(s, p) && ((
                    p.a as int) < a || (p.a as int == a && (p.b as int) < b + 1))) by {
                        let idx = choose|idx: int| 0 <= idx < curr@.len() && curr@[idx] == p;
                        if idx < before.len() {
                            assert(before.contains(p)) by {
                                assert(before[idx] == p);
                            }
                        }
                    }
                    assert forall|p: Pair|
                        pair_overlaps(s, p) && ((p.a as int) < a || (p.a as int == a && (
                        p.b as int) < b + 1)) implies curr@.contains(p) by {
                        if (p.a as int) < a || (p.a as int == a && (p.b as int) < b) {
                            assert(before.contains(p));
                            let idx = choose|idx: int| 0 <= idx < before.len() && before[idx] == p;
                            assert(curr@[idx] == p);
                        } else {
                            assert(p == q);
                            assert(curr@[curr@.len() - 1] == p);
                        }
                    }
                }
                b = b + 1;
            }
            a = a + 1;
        }
        // every currently overlapping pair that the previous snapshot did
        // not hold begins to intersect this tick
        let m = curr.len();
        let mut started: Vec<Pair> = Vec::new();
        let mut j: usize = 0;
        while j < m
            invariant
                j <= m == curr@.len(),
                forall|p: Pair|
                    curr@.contains(p) <==> pair_overlaps(s, p),
                forall|j1: int, j2: int|
                    0 <= j1 < j2 < curr@.len() ==> pair_lt(curr@[j1], curr@[j2]),
                self.prev@ == old(self).prev_pairs(),
                forall|p: Pair|
                    started@.contains(p) <==> (exists|jj: int|
                        0 <= jj < j && curr@[jj] == p && !old(self).prev_pairs().contains(p)),
                forall|jj1: int, jj2: int|
                    0 <= jj1 < jj2 < started@.len() ==> started@[jj1] != started@[jj2],
                forall|jj: int|
                    0 <= jj < started@.len() ==> curr@.contains(#[trigger] started@[jj]),
            decreases m - j,
        {
            let p = curr[j];
            let ghost started_before = started@;
            let in_prev = contains_pair(&self.prev, p);
            if !in_prev {
                proof {
                    if started@.contains(p) {
                        let jj = choose|jj: int|
                            0 <= jj < j && curr@[jj] == p && !old(self).prev_pairs().contains(p);
                        assert(curr@[jj] == curr@[j as int]);
                        assert(pair_lt(curr@[jj], curr@[j as int]));
                        assert(false);
                    }
                }
                started.push(p);
            }
            proof {
                assert forall|q: Pair| started@.contains(q) implies (exists|jj: int|
                    0 <= jj < j + 1 && curr@[jj] == q && !old(self).prev_pairs().contains(q)) by {
                    let idx = choose|idx: int| 0 <= idx < started@.len() && started@[idx] == q;
                    if idx < started_before.len() {
                        assert(started_before[idx] == q);
                        assert(started_before.contains(q));
                    } else {
                        assert(q == p);
                        assert(curr@[j as int] == q);
                    }
                }
                assert forall|q: Pair|
                    (exists|jj: int|
                        0 <= jj < j + 1 && curr@[jj] == q && !old(self).prev_pairs().contains(
                            q,
                        )) implies started@.contains(q) by {
                    let jj = choose|jj: int|
                        0 <= jj < j + 1 && curr@[jj] == q && !old(self).prev_pairs().contains(q);
                    if jj < j {
                        assert(started_before.contains(q));
                        let idx = choose|idx: int|
                            0 <= idx < started_before.len() && started_before[idx] == q;
                        assert(started@[idx] == q);
                    } else {
                        assert(q == p);
                        assert(started@[started@.len() - 1] == q);
                    }
                }
            }
            j = j + 1;
        }
        self.prev = curr;
        self.events = started;
        proof {
            assert forall|p: Pair| final(self).events_spec().contains(p) implies (pair_overlaps(
                old(self).entries(),
                p,
            ) && !old(self).prev_pairs().contains(p)) by {
                let jj = choose|jj: int|
                    0 <= jj < m && self.prev@[jj] == p && !old(self).prev_pairs().contains(p);
                assert(self.prev@.contains(p)) by {
                    assert(self.prev@[jj] == p);
                }
            }
            assert forall|p: Pair|
                pair_overlaps(old(self).entries(), p) && !old(self).prev_pairs().contains(
                    p,
                ) implies #[trigger] final(self).events_spec().contains(p) by {
                assert(self.prev@.contains(p));
                let jj = choose|jj: int| 0 <= jj < m && self.prev@[jj] == p;
            }
            assert forall|k: int|
                0 <= k < self.events@.len() implies (#[trigger] self.events@[k]).a
                < self.events@[k].b < self.entries@.len() by {
                assert(self.prev@.contains(self.events@[k]));
                let jj = choose|jj: int| 0 <= jj < self.prev@.len() && self.prev@[jj] == self.events@[k];
                assert(pair_overlaps(s, self.prev@[jj]));
            }
            assert forall|k: int|
                0 <= k < self.prev@.len() implies (#[trigger] self.prev@[k]).a < self.prev@[k].b
                < self.entries@.len() by {
                assert(self.prev@.contains(self.prev@[k]));
                assert(pair_overlaps(s, self.prev@[k]));
            }
            assert forall|j1: int, j2: int|
                0 <= j1 < j2 < self.prev@.len() implies self.prev@[j1] != self.prev@[j2] by {
                assert(pair_lt(self.prev@[j1], self.prev@[j2]));
            }
        }
    }

    /// Copies out the events of the last update.
    pub fn events(&self) -> (r: Vec<Pair>)
        ensures
            r@ == self.events_spec(),
    {
        let n = self.events.len();
        let mut out: Vec<Pair> = Vec::new();
        let mut j: usize = 0;
        while j < n
            invariant
                j <= n == self.events@.len(),
                out@ == self.events@.subrange(0, j as int),
            decreases n - j,
        {
            out.push(self.events[j]);
            proof {
                assert(out@ =~= self.events@.subrange(0, j + 1));
            }
            j = j + 1;
        }
        proof {
            assert(out@ =~= self.events@);
        }
        out
    }
}

} // verus!
