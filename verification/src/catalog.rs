//! The catalog: the set of partitions known to be attached to the active
//! session, kept in ascending month order. A partition is recorded at most
//! once; recording it again is a no-op.

use crate::partition::PartitionKey;
use vstd::prelude::*;

verus! {

/// The in-process record of attached partitions. It is the cached strategy:
/// populated from a directory scan at startup and updated after each
/// successful attach, under the owner's exclusive access.
pub struct Catalog {
    keys: Vec<PartitionKey>,
}

impl Catalog {
    /// The attached partition keys, in ascending month order.
    pub closed spec fn view(self) -> Seq<PartitionKey> {
        self.keys@
    }

    /// Every key is valid, and the sequence is strictly increasing on the
    /// month scale — so no month appears twice.
    pub open spec fn wf(self) -> bool {
        &&& forall|i: int| 0 <= i < self@.len() ==> (#[trigger] self@[i]).valid()
        &&& forall|i: int, j: int|
            0 <= i < j < self@.len() ==> (#[trigger] self@[i]).month_index() < (
            #[trigger] self@[j]).month_index()
    }

    /// Whether the partition for `k` is recorded as attached.
    pub open spec fn has(self, k: PartitionKey) -> bool {
        self@.contains(k)
    }

    /// An empty catalog: no partition attached yet.
    pub fn new() -> (c: Catalog)
        ensures
            c.wf(),
            c@ == Seq::<PartitionKey>::empty(),
    {
        Catalog { keys: Vec::new() }
    }

    /// How many partitions are recorded.
    pub fn len(&self) -> (n: usize)
        ensures
            n == self@.len(),
    {
        self.keys.len()
    }

    /// The key at a position, in ascending month order.
    pub fn key_at(&self, i: usize) -> (k: PartitionKey)
        requires
            i < self@.len(),
        ensures
            k == self@[i as int],
    {
        self.keys[i]
    }

    /// Whether the partition for `k` is recorded as attached.
    pub fn contains(&self, k: &PartitionKey) -> (r: bool)
        ensures
            r == self.has(*k),
    {
        let mut i: usize = 0;
        while i < self.keys.len()
            invariant
                i <= self@.len(),
                forall|j: int| 0 <= j < i ==> self@[j] != *k,
            decreases self@.len() - i,
        {
            if self.keys[i] == *k {
                return true;
            }
            i += 1;
        }
        false
    }

    /// Record the partition for `k` as attached. Keys already present are
    /// left alone: membership grows by exactly `k`, order and uniqueness are
    /// preserved.
    pub fn insert(&mut self, k: PartitionKey)
        requires
            old(self).wf(),
            k.valid(),
        ensures
            final(self).wf(),
            final(self).has(k),
            forall|x: PartitionKey| #[trigger] final(self).has(x) <==> old(self).has(x) || x == k,
            old(self).has(k) ==> final(self)@ == old(self)@,
            final(self)@.len() <= old(self)@.len() + 1,
    {
        let ghost prior = self@;
        let mut i: usize = 0;
        while i < self.keys.len() && self.keys[i].year * 12 + (self.keys[i].month - 1) < k.year
            * 12 + (k.month - 1)
            invariant
                self@ == prior,
                self.wf(),
                k.valid(),
                i <= self@.len(),
                forall|j: int| 0 <= j < i ==> (#[trigger] self@[j]).month_index() < k.month_index(),
            decreases self@.len() - i,
        {
            i += 1;
        }
        if i < self.keys.len() && self.keys[i] == k {
            proof {
                assert(self.has(k));
            }
            return;
        }
        proof {
            assert(i < self@.len() ==> self@[i as int].month_index() > k.month_index()) by {
                if i < self@.len() {
                    let there = self@[i as int];
                    assert(there.month_index() >= k.month_index());
                    if there.month_index() == k.month_index() {
                        assert(there.year == k.year && there.month == k.month) by {
                            assert(there.valid() && k.valid());
                        };
                        assert(there == k);
                    }
                }
            };
            assert(!prior.contains(k)) by {
                if prior.contains(k) {
                    let w = choose|w: int| 0 <= w < prior.len() && prior[w] == k;
                    assert(prior[w].month_index() == k.month_index());
                }
            };
        }
        self.keys.insert(i, k);
        proof {
            assert(self@ == prior.insert(i as int, k));
            assert(self@[i as int] == k);
            assert forall|x: PartitionKey| #[trigger] self.has(x) implies prior.contains(x) || x
                == k by {
                let w = choose|w: int| 0 <= w < self@.len() && self@[w] == x;
                if w < i {
                    assert(prior[w] == x);
                } else if w > i {
                    assert(prior[w - 1] == x);
                }
            };
            assert forall|x: PartitionKey| prior.contains(x) implies #[trigger] self.has(x) by {
                let w = choose|w: int| 0 <= w < prior.len() && prior[w] == x;
                if w < i {
                    assert(self@[w] == x);
                } else {
                    assert(self@[w + 1] == x);
                }
            };
        }
    }
}

} // verus!
