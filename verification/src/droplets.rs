//! The slot pool: a fixed-capacity arena of droplet slots with O(1)
//! checkout and free through a FIFO queue of free slot indices.
//!
//! Invariant: every slot index is either free (in the queue, `deleted`)
//! or live (not in the queue, not `deleted`); never both, never neither.

use std::collections::VecDeque;
use vstd::prelude::*;

use crate::droplet::Droplet;

verus! {

/// Number of live (not deleted) slots among the first `n` of `s`.
pub open spec fn live_count_upto(s: Seq<Droplet>, n: int) -> int
    decreases n,
{
    if n <= 0 {
        0
    } else {
        live_count_upto(s, n - 1) + if s[n - 1].deleted {
            0int
        } else {
            1int
        }
    }
}

/// Number of live (not deleted) slots of `s`.
pub open spec fn live_count(s: Seq<Droplet>) -> int {
    live_count_upto(s, s.len() as int)
}

/// The given droplet with its `deleted` mark replaced.
pub open spec fn with_deleted(d: Droplet, deleted: bool) -> Droplet {
    Droplet { deleted, ..d }
}

/// The value held by every slot of a freshly built pool.
pub open spec fn free_default() -> Droplet {
    with_deleted(Droplet::default_spec(), true)
}

/// Every slot of the pool, live or stale, keeps the machine bounds.
pub open spec fn all_bounded(pool: Droplets) -> bool {
    forall|k: int| 0 <= k < pool.slots().len() ==> (#[trigger] pool.slots()[k]).bounded()
}

proof fn lemma_live_count_all_live(s: Seq<Droplet>, n: int)
    requires
        0 <= n <= s.len(),
        forall|k: int| 0 <= k < n ==> !(#[trigger] s[k].deleted),
    ensures
        live_count_upto(s, n) == n,
    decreases n,
{
    if n > 0 {
        lemma_live_count_all_live(s, n - 1);
    }
}

proof fn lemma_live_count_update(s: Seq<Droplet>, k: int, d: Droplet, n: int)
    requires
        0 <= k < s.len(),
        0 <= n <= s.len(),
    ensures
        live_count_upto(s.update(k, d), n) == live_count_upto(s, n) + if k < n {
            (if d.deleted {
                0int
            } else {
                1int
            }) - (if s[k].deleted {
                0int
            } else {
                1int
            })
        } else {
            0int
        },
    decreases n,
{
    if n > 0 {
        lemma_live_count_update(s, k, d, n - 1);
    }
}

/// A queue that holds exactly the deleted slots, without duplicates,
/// accounts for all slots that the live count does not.
proof fn lemma_partition(s: Seq<Droplet>, q: Seq<usize>)
    requires
        forall|j: int| 0 <= j < q.len() ==> (#[trigger] q[j]) < s.len(),
        forall|j1: int, j2: int| 0 <= j1 < j2 < q.len() ==> q[j1] != q[j2],
        forall|k: int|
            0 <= k < s.len() ==> ((#[trigger] s[k].deleted) <==> exists|j: int|
                0 <= j < q.len() && q[j] == k),
    ensures
        live_count(s) + q.len() == s.len(),
    decreases q.len(),
{
    if q.len() == 0 {
        assert forall|k: int| 0 <= k < s.len() implies !(#[trigger] s[k].deleted) by {
            if s[k].deleted {
                let j = choose|j: int| 0 <= j < q.len() && q[j] == k;
                assert(false);
            }
        }
        lemma_live_count_all_live(s, s.len() as int);
    } else {
        let last = q.len() - 1;
        let k = q[last] as int;
        assert(s[k].deleted);
        let s2 = s.update(k, with_deleted(s[k], false));
        let q2 = q.subrange(0, last);
        assert forall|k2: int|
            0 <= k2 < s2.len() implies ((#[trigger] s2[k2].deleted) <==> exists|j: int|
            0 <= j < q2.len() && q2[j] == k2) by {
            if k2 == k {
                assert(!s2[k2].deleted);
                if exists|j: int| 0 <= j < q2.len() && q2[j] == k2 {
                    let j = choose|j: int| 0 <= j < q2.len() && q2[j] == k2;
                    assert(q[j] == q[last]);
                    assert(false);
                }
            } else {
                assert(s2[k2] == s[k2]);
                if s[k2].deleted {
                    let j = choose|j: int| 0 <= j < q.len() && q[j] == k2;
                    assert(j != last);
                    assert(q2[j] == k2);
                }
                if exists|j: int| 0 <= j < q2.len() && q2[j] == k2 {
                    let j = choose|j: int| 0 <= j < q2.len() && q2[j] == k2;
                    assert(q[j] == k2);
                }
            }
        }
        lemma_partition(s2, q2);
        lemma_live_count_update(s, k, with_deleted(s[k], false), s.len() as int);
        assert(live_count(s2) == live_count(s) + 1);
    }
}

/// Fixed-capacity pool of droplet slots with a FIFO free-index queue.
pub struct Droplets {
    droplets: Vec<Droplet>,
    unused: VecDeque<usize>,
}

impl Droplets {
    /// The slots, in index order, including deleted ones.
    pub closed spec fn slots(&self) -> Seq<Droplet> {
        self.droplets@
    }

    /// The free slot indices, front first.
    pub closed spec fn free_queue(&self) -> Seq<usize> {
        self.unused@
    }

    /// Number of slots, free or live.
    pub open spec fn capacity(&self) -> int {
        self.slots().len() as int
    }

    /// Whether slot `k` appears in the free queue.
    pub open spec fn in_free(&self, k: int) -> bool {
        exists|j: int| 0 <= j < self.free_queue().len() && self.free_queue()[j] == k
    }

    /// Well-formedness: the free queue holds exactly the deleted slot
    /// indices, each at most once.
    pub open spec fn wf(&self) -> bool {
        &&& forall|j: int|
            0 <= j < self.free_queue().len() ==> (#[trigger] self.free_queue()[j])
                < self.slots().len()
        &&& forall|j1: int, j2: int|
            0 <= j1 < j2 < self.free_queue().len() ==> self.free_queue()[j1]
                != self.free_queue()[j2]
        &&& forall|k: int|
            0 <= k < self.slots().len() ==> ((#[trigger] self.slots()[k].deleted)
                <==> self.in_free(k))
    }

    /// An empty pool of no slots.
    pub fn new() -> (r: Droplets)
        ensures
            r.wf(),
            r.capacity() == 0,
            r.free_queue().len() == 0,
    {
        Droplets { droplets: Vec::new(), unused: VecDeque::new() }
    }

    /// A pool of `capacity` slots, all marked deleted, with the free queue
    /// holding every index in order.
    pub fn with_capacity(capacity: usize) -> (r: Droplets)
        ensures
            r.wf(),
            r.capacity() == capacity,
            forall|k: int| 0 <= k < capacity ==> r.slots()[k] == free_default(),
            r.free_queue().len() == capacity,
            forall|j: int| 0 <= j < capacity ==> r.free_queue()[j] == j,
    {
        let mut result = Droplets {
            droplets: Vec::with_capacity(capacity),
            unused: VecDeque::with_capacity(capacity),
        };
        for i in 0..capacity
            invariant
                result.droplets@.len() == i,
                result.unused@.len() == i,
                forall|k: int| 0 <= k < i ==> result.droplets@[k] == free_default(),
                forall|j: int| 0 <= j < i ==> result.unused@[j] == j,
        {
            let mut d = Droplet::new();
            d.deleted = true;
            result.droplets.push(d);
            result.unused.push_back(i);
        }
        proof {
            assert forall|k: int| 0 <= k < result.slots().len() implies ((
            #[trigger] result.slots()[k].deleted) <==> result.in_free(k)) by {
                assert(result.slots()[k] == free_default());
                assert(result.free_queue()[k] == k);
            }
        }
        result
    }

    /// Pops the front of the free queue, marks that slot live, and returns
    /// its index; returns `None` exactly when the pool is exhausted. The
    /// slot's other fields keep the previous occupant's values.
    pub fn checkout(&mut self) -> (r: Option<usize>)
        requires
            old(self).wf(),
        ensures
            final(self).wf(),
            final(self).capacity() == old(self).capacity(),
            match r {
                None => {
                    &&& final(self).slots() == old(self).slots()
                    &&& final(self).free_queue() == old(self).free_queue()
                    &&& old(self).free_queue().len() == 0
                },
                Some(i) => {
                    &&& old(self).free_queue().len() > 0
                    &&& i == old(self).free_queue()[0]
                    &&& i < old(self).capacity()
                    &&& old(self).slots()[i as int].deleted
                    &&& final(self).slots() == old(self).slots().update(
                        i as int,
                        with_deleted(old(self).slots()[i as int], false),
                    )
                    &&& final(self).free_queue() == old(self).free_queue().subrange(
                        1,
                        old(self).free_queue().len() as int,
                    )
                },
            },
    {
        let ghost pre = *self;
        if let Some(unused) = self.unused.pop_front() {
            assert(pre.free_queue()[0] == unused);
            assert(unused < self.droplets.len());
            let d = &mut self.droplets[unused];
            d.deleted = false;
            proof {
                let q2 = self.free_queue();
                let q = pre.free_queue();
                assert forall|k: int|
                    0 <= k < self.slots().len() implies ((#[trigger] self.slots()[k].deleted)
                    <==> self.in_free(k)) by {
                    if k == unused {
                        if self.in_free(k) {
                            let j = choose|j: int| 0 <= j < q2.len() && q2[j] == k;
                            assert(q[j + 1] == k);
                            assert(q[0] == k);
                            assert(false);
                        }
                    } else {
                        assert(self.slots()[k] == pre.slots()[k]);
                        if pre.slots()[k].deleted {
                            let j = choose|j: int| 0 <= j < q.len() && q[j] == k;
                            assert(j != 0);
                            assert(q2[j - 1] == k);
                        }
                        if self.in_free(k) {
                            let j = choose|j: int| 0 <= j < q2.len() && q2[j] == k;
                            assert(q[j + 1] == k);
                        }
                    }
                }
            }
            return Some(unused);
        }
        None
    }

    /// Marks a live slot deleted and pushes its index to the back of the
    /// free queue. Freeing an already-free slot is a caller error and is
    /// excluded by contract.
    pub fn free(&mut self, index: usize)
        requires
            old(self).wf(),
            index < old(self).capacity(),
            !old(self).slots()[index as int].deleted,
        ensures
            final(self).wf(),
            final(self).slots() == old(self).slots().update(
                index as int,
                with_deleted(old(self).slots()[index as int], true),
            ),
            final(self).free_queue() == old(self).free_queue().push(index),
    {
        let ghost pre = *self;
        let d = &mut self.droplets[index];
        d.deleted = true;
        self.unused.push_back(index);
        proof {
            let q2 = self.free_queue();
            let q = pre.free_queue();
            assert(self.slots() == pre.slots().update(
                index as int,
                with_deleted(pre.slots()[index as int], true),
            ));
            assert(q2 == q.push(index));
            assert forall|j1: int, j2: int|
                0 <= j1 < j2 < q2.len() implies q2[j1] != q2[j2] by {
                if j2 == q2.len() - 1 {
                    assert(q2[j2] == index);
                    assert(q[j1] == q2[j1]);
                    if q2[j1] == index {
                        assert(pre.in_free(index as int));
                        assert(false);
                    }
                }
            }
            assert forall|k: int|
                0 <= k < self.slots().len() implies ((#[trigger] self.slots()[k].deleted)
                <==> self.in_free(k)) by {
                if k == index {
                    assert(q2[q2.len() - 1] == k);
                    assert(self.in_free(k));
                    assert(self.slots()[k].deleted);
                } else {
                    assert(self.slots()[k] == pre.slots()[k]);
                    if pre.slots()[k].deleted {
                        let j = choose|j: int| 0 <= j < q.len() && q[j] == k;
                        assert(q2[j] == k);
                    }
                    if self.in_free(k) {
                        let j = choose|j: int| 0 <= j < q2.len() && q2[j] == k;
                        assert(j != q2.len() - 1);
                        assert(q[j] == k);
                    }
                }
            }
        }
    }

    /// Number of slots, free or live.
    pub fn len(&self) -> (r: usize)
        ensures
            r == self.capacity(),
    {
        self.droplets.len()
    }

    /// Number of indices in the free queue.
    pub fn free_len(&self) -> (r: usize)
        ensures
            r == self.free_queue().len(),
    {
        self.unused.len()
    }

    /// Number of live slots.
    pub fn used_count(&self) -> (r: usize)
        ensures
            r == live_count(self.slots()),
    {
        let mut count: usize = 0;
        let n = self.droplets.len();
        for i in 0..n
            invariant
                n == self.slots().len(),
                count == live_count_upto(self.slots(), i as int),
                count <= i,
        {
            if !self.droplets[i].deleted {
                count = count + 1;
            }
        }
        count
    }

    /// Read access to a slot by index.
    pub fn get(&self, index: usize) -> (r: &Droplet)
        requires
            index < self.capacity(),
        ensures
            *r == self.slots()[index as int],
    {
        &self.droplets[index]
    }

    /// Overwrites a slot's fields without changing its liveness mark, so
    /// the pool invariant is untouched.
    pub fn write(&mut self, index: usize, d: Droplet)
        requires
            index < old(self).capacity(),
            d.deleted == old(self).slots()[index as int].deleted,
        ensures
            final(self).slots() == old(self).slots().update(index as int, d),
            final(self).free_queue() == old(self).free_queue(),
            old(self).wf() ==> final(self).wf(),
    {
        let ghost pre = *self;
        let slot = &mut self.droplets[index];
        *slot = d;
        proof {
            if pre.wf() {
                assert(self.free_queue() == pre.free_queue());
                assert forall|k: int|
                    0 <= k < self.slots().len() implies ((#[trigger] self.slots()[k].deleted)
                    <==> self.in_free(k)) by {
                    assert(self.slots()[k].deleted == pre.slots()[k].deleted);
                    assert(pre.slots()[k].deleted <==> pre.in_free(k));
                    if pre.in_free(k) {
                        let j = choose|j: int|
                            0 <= j < pre.free_queue().len() && pre.free_queue()[j] == k;
                        assert(self.free_queue()[j] == k);
                    }
                    if self.in_free(k) {
                        let j = choose|j: int|
                            0 <= j < self.free_queue().len() && self.free_queue()[j] == k;
                        assert(pre.free_queue()[j] == k);
                    }
                }
            }
        }
    }
}

/// Law: for every reachable pool state, the live count and the free-queue
/// length sum to the capacity.
pub proof fn lemma_pool_conservation(pool: Droplets)
    requires
        pool.wf(),
    ensures
        live_count(pool.slots()) + pool.free_queue().len() == pool.capacity(),
{
    lemma_partition(pool.slots(), pool.free_queue());
}

/// Law: no slot index is ever in the free queue while its slot is live, or
/// out of the queue while its slot is deleted, and the queue never holds an
/// index twice.
pub proof fn lemma_free_queue_matches_deleted(pool: Droplets)
    requires
        pool.wf(),
    ensures
        forall|k: int|
            0 <= k < pool.capacity() ==> ((#[trigger] pool.slots()[k].deleted) <==> pool.in_free(
                k,
            )),
        forall|j1: int, j2: int|
            0 <= j1 < j2 < pool.free_queue().len() ==> pool.free_queue()[j1]
                != pool.free_queue()[j2],
{
}

} // verus!
