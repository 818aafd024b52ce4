//! Which node holds which chunk: one relation between addresses and names,
//! read in both directions.

use crate::messages::ChunkAddress;
use crate::name::XorName;
use vstd::prelude::*;

verus! {

/// The holders of every chunk that the section answers for.
pub struct HolderIndex {
    pairs: Vec<(ChunkAddress, XorName)>,
}

impl HolderIndex {
    /// No pair is recorded twice.
    pub closed spec fn wf(&self) -> bool {
        forall|i: int, j: int| 0 <= i < j < self.pairs@.len() ==> self.pairs@[i] != self.pairs@[j]
    }

    /// Node `n` holds the chunk at `a`.
    pub closed spec fn holds(&self, a: ChunkAddress, n: XorName) -> bool {
        exists|i: int| 0 <= i < self.pairs@.len() && self.pairs@[i] == (a, n)
    }

    /// The holders of the chunk at `a`.
    pub open spec fn holders_of(&self, a: ChunkAddress) -> Set<XorName> {
        Set::new(|n: XorName| self.holds(a, n))
    }

    /// The chunks that node `n` holds.
    pub open spec fn held_by(&self, n: XorName) -> Set<ChunkAddress> {
        Set::new(|a: ChunkAddress| self.holds(a, n))
    }

    /// An index that records nothing.
    pub fn new() -> (r: HolderIndex)
        ensures
            r.wf(),
            forall|a: ChunkAddress, n: XorName| !r.holds(a, n),
    {
        HolderIndex { pairs: Vec::new() }
    }

    /// Lists every pair of a chunk and a holder of it, each once, as for
    /// writing the index to disk.
    pub fn pairs(&self) -> (r: Vec<(ChunkAddress, XorName)>)
        requires
            self.wf(),
        ensures
            forall|i: int, j: int| 0 <= i < j < r@.len() ==> r@[i] != r@[j],
            forall|a: ChunkAddress, n: XorName| r@.contains((a, n)) <==> self.holds(a, n),
    {
        let mut r: Vec<(ChunkAddress, XorName)> = Vec::new();
        let mut i: usize = 0;
        while i < self.pairs.len()
            invariant
                i <= self.pairs@.len(),
                r@ == self.pairs@.take(i as int),
            decreases self.pairs@.len() - i,
        {
            r.push(self.pairs[i]);
            proof {
                assert(self.pairs@.take(i as int + 1) =~= self.pairs@.take(i as int).push(
                    self.pairs@[i as int],
                ));
            }
            i += 1;
        }
        proof {
            assert(self.pairs@.take(self.pairs@.len() as int) =~= self.pairs@);
        }
        r
    }

    /// The index that records the given pairs, as after reading it from
    /// disk. A pair that comes twice is recorded once.
    pub fn from_pairs(pairs: &Vec<(ChunkAddress, XorName)>) -> (r: HolderIndex)
        ensures
            r.wf(),
            forall|a: ChunkAddress, n: XorName| r.holds(a, n) <==> pairs@.contains((a, n)),
    {
        let mut r = HolderIndex::new();
        let mut i: usize = 0;
        while i < pairs.len()
            invariant
                i <= pairs@.len(),
                r.wf(),
                forall|a: ChunkAddress, n: XorName|
                    r.holds(a, n) <==> exists|j: int| 0 <= j < i && pairs@[j] == (a, n),
            decreases pairs@.len() - i,
        {
            let ghost before = r;
            r.insert(pairs[i].0, pairs[i].1);
            proof {
                assert forall|a: ChunkAddress, n: XorName|
                    r.holds(a, n) <==> exists|j: int| 0 <= j < i + 1 && pairs@[j] == (a, n) by {
                    if r.holds(a, n) {
                        if before.holds(a, n) {
                            let j = choose|j: int| 0 <= j < i && pairs@[j] == (a, n);
                            assert(0 <= j < i + 1 && pairs@[j] == (a, n));
                        } else {
                            assert(pairs@[i as int] == (a, n));
                        }
                    }
                    if exists|j: int| 0 <= j < i + 1 && pairs@[j] == (a, n) {
                        let j = choose|j: int| 0 <= j < i + 1 && pairs@[j] == (a, n);
                        if j < i {
                            assert(before.holds(a, n));
                        }
                    }
                }
            }
            i += 1;
        }
        r
    }

    /// Tells whether `n` holds the chunk at `a`.
    pub fn contains(&self, a: &ChunkAddress, n: &XorName) -> (r: bool)
        ensures
            r == self.holds(*a, *n),
    {
        let mut i: usize = 0;
        while i < self.pairs.len()
            invariant
                i <= self.pairs@.len(),
                forall|j: int| 0 <= j < i ==> self.pairs@[j] != (*a, *n),
            decreases self.pairs@.len() - i,
        {
            if self.pairs[i].0 == *a && self.pairs[i].1 == *n {
                return true;
            }
            i += 1;
        }
        false
    }

    /// Lists the holders of the chunk at `a`, each once.
    pub fn holders(&self, a: &ChunkAddress) -> (r: Vec<XorName>)
        requires
            self.wf(),
        ensures
            r@.no_duplicates(),
            forall|n: XorName| r@.contains(n) <==> self.holds(*a, n),
    {
        let mut r: Vec<XorName> = Vec::new();
        let ghost mut from: Seq<int> = Seq::empty();
        let mut i: usize = 0;
        while i < self.pairs.len()
            invariant
                self.wf(),
                i <= self.pairs@.len(),
                from.len() == r@.len(),
                forall|k: int|
                    0 <= k < r@.len() ==> 0 <= #[trigger] from[k] < i && self.pairs@[from[k]] == (
                        *a,
                        r@[k],
                    ),
                forall|k: int, l: int| 0 <= k < l < r@.len() ==> from[k] < from[l],
                forall|j: int|
                    0 <= j < i && (#[trigger] self.pairs@[j]).0 == *a ==> r@.contains(
                        self.pairs@[j].1,
                    ),
            decreases self.pairs@.len() - i,
        {
            if self.pairs[i].0 == *a {
                let ghost r0 = r@;
                r.push(self.pairs[i].1);
                proof {
                    from = from.push(i as int);
                    assert(r@[r0.len() as int] == self.pairs@[i as int].1);
                    assert forall|j: int|
                        0 <= j < i + 1 && (#[trigger] self.pairs@[j]).0 == *a implies r@.contains(
                        self.pairs@[j].1,
                    ) by {
                        if j < i {
                            let k = choose|k: int| 0 <= k < r0.len() && r0[k] == self.pairs@[j].1;
                            assert(r@[k] == self.pairs@[j].1);
                        }
                    }
                }
            }
            i += 1;
        }
        proof {
            assert forall|k: int, l: int| 0 <= k < l < r@.len() implies r@[k] != r@[l] by {
                assert(self.pairs@[from[k]] != self.pairs@[from[l]]);
            }
            assert forall|n: XorName| r@.contains(n) <==> self.holds(*a, n) by {
                if r@.contains(n) {
                    let k = choose|k: int| 0 <= k < r@.len() && r@[k] == n;
                    assert(self.pairs@[from[k]] == (*a, n));
                }
                if self.holds(*a, n) {
                    let j = choose|j: int| 0 <= j < self.pairs@.len() && self.pairs@[j] == (*a, n);
                    assert(self.pairs@[j].0 == *a);
                }
            }
        }
        r
    }

    /// Lists the chunks that node `n` holds, each once.
    pub fn addresses_held_by(&self, n: &XorName) -> (r: Vec<ChunkAddress>)
        requires
            self.wf(),
        ensures
            r@.no_duplicates(),
            forall|a: ChunkAddress| r@.contains(a) <==> self.holds(a, *n),
    {
        let mut r: Vec<ChunkAddress> = Vec::new();
        let ghost mut from: Seq<int> = Seq::empty();
        let mut i: usize = 0;
        while i < self.pairs.len()
            invariant
                self.wf(),
                i <= self.pairs@.len(),
                from.len() == r@.len(),
                forall|k: int|
                    0 <= k < r@.len() ==> 0 <= #[trigger] from[k] < i && self.pairs@[from[k]] == (
                        r@[k],
                        *n,
                    ),
                forall|k: int, l: int| 0 <= k < l < r@.len() ==> from[k] < from[l],
                forall|j: int|
                    0 <= j < i && (#[trigger] self.pairs@[j]).1 == *n ==> r@.contains(
                        self.pairs@[j].0,
                    ),
            decreases self.pairs@.len() - i,
        {
            if self.pairs[i].1 == *n {
                let ghost r0 = r@;
                r.push(self.pairs[i].0);
                proof {
                    from = from.push(i as int);
                    assert(r@[r0.len() as int] == self.pairs@[i as int].0);
                    assert forall|j: int|
                        0 <= j < i + 1 && (#[trigger] self.pairs@[j]).1 == *n implies r@.contains(
                        self.pairs@[j].0,
                    ) by {
                        if j < i {
                            let k = choose|k: int| 0 <= k < r0.len() && r0[k] == self.pairs@[j].0;
                            assert(r@[k] == self.pairs@[j].0);
                        }
                    }
                }
            }
            i += 1;
        }
        proof {
            assert forall|k: int, l: int| 0 <= k < l < r@.len() implies r@[k] != r@[l] by {
                assert(self.pairs@[from[k]] != self.pairs@[from[l]]);
            }
            assert forall|a: ChunkAddress| r@.contains(a) <==> self.holds(a, *n) by {
                if r@.contains(a) {
                    let k = choose|k: int| 0 <= k < r@.len() && r@[k] == a;
                    assert(self.pairs@[from[k]] == (a, *n));
                }
                if self.holds(a, *n) {
                    let j = choose|j: int| 0 <= j < self.pairs@.len() && self.pairs@[j] == (a, *n);
                    assert(self.pairs@[j].1 == *n);
                }
            }
        }
        r
    }

    /// Records that `n` holds the chunk at `a`.
    pub fn insert(&mut self, a: ChunkAddress, n: XorName)
        requires
            old(self).wf(),
        ensures
            final(self).wf(),
            forall|x: ChunkAddress, y: XorName|
                final(self).holds(x, y) <==> old(self).holds(x, y) || (x == a && y == n),
    {
        if !self.contains(&a, &n) {
            let ghost before = self.pairs@;
            self.pairs.push((a, n));
            proof {
                let after = self.pairs@;
                assert(after[before.len() as int] == (a, n));
                assert forall|x: ChunkAddress, y: XorName|
                    final(self).holds(x, y) <==> old(self).holds(x, y) || (x == a && y == n) by {
                    if old(self).holds(x, y) {
                        let i = choose|i: int| 0 <= i < before.len() && before[i] == (x, y);
                        assert(after[i] == (x, y));
                    }
                    if final(self).holds(x, y) {
                        let i = choose|i: int| 0 <= i < after.len() && after[i] == (x, y);
                        if i < before.len() {
                            assert(before[i] == (x, y));
                        }
                    }
                }
            }
        }
    }

    /// Records that `n` no longer holds the chunk at `a`.
    pub fn remove(&mut self, a: ChunkAddress, n: XorName)
        requires
            old(self).wf(),
        ensures
            final(self).wf(),
            forall|x: ChunkAddress, y: XorName|
                final(self).holds(x, y) <==> old(self).holds(x, y) && !(x == a && y == n),
    {
        let ghost before = self.pairs@;
        let mut i: usize = 0;
        while i < self.pairs.len()
            invariant
                old(self).wf(),
                before == old(self).pairs@,
                self.pairs@ == before,
                i <= self.pairs@.len(),
                forall|j: int| 0 <= j < i ==> self.pairs@[j] != (a, n),
            decreases self.pairs@.len() - i,
        {
            if self.pairs[i].0 == a && self.pairs[i].1 == n {
                let _ = self.pairs.remove(i);
                proof {
                    let after = self.pairs@;
                    assert(forall|j: int| 0 <= j < i ==> after[j] == before[j]);
                    assert(forall|j: int| i <= j < after.len() ==> after[j] == before[j + 1]);
                    assert forall|x: ChunkAddress, y: XorName|
                        final(self).holds(x, y) <==> old(self).holds(x, y) && !(x == a && y == n) by {
                        if old(self).holds(x, y) && !(x == a && y == n) {
                            let k = choose|k: int| 0 <= k < before.len() && before[k] == (x, y);
                            if k < i {
                                assert(after[k] == (x, y));
                            } else {
                                assert(after[k - 1] == (x, y));
                            }
                        }
                        if final(self).holds(x, y) {
                            let k = choose|k: int| 0 <= k < after.len() && after[k] == (x, y);
                            if k < i {
                                assert(before[k] == (x, y));
                            } else {
                                assert(before[k + 1] == (x, y));
                            }
                        }
                    }
                }
                return ;
            }
            i += 1;
        }
    }

    /// Records that nobody holds the chunk at `a` any more.
    pub fn remove_address(&mut self, a: ChunkAddress)
        requires
            old(self).wf(),
        ensures
            final(self).wf(),
            forall|x: ChunkAddress, y: XorName|
                final(self).holds(x, y) <==> old(self).holds(x, y) && x != a,
    {
        let all = self.holders(&a);
        let mut k: usize = 0;
        while k < all.len()
            invariant
                k <= all@.len(),
                self.wf(),
                forall|n: XorName| all@.contains(n) <==> old(self).holds(a, n),
                forall|x: ChunkAddress, y: XorName|
                    self.holds(x, y) <==> old(self).holds(x, y) && !(x == a && exists|j: int|
                        0 <= j < k && all@[j] == y),
            decreases all@.len() - k,
        {
            let ghost before = *self;
            self.remove(a, all[k]);
            proof {
                assert forall|x: ChunkAddress, y: XorName|
                    self.holds(x, y) <==> old(self).holds(x, y) && !(x == a && exists|j: int|
                        0 <= j < k + 1 && all@[j] == y) by {
                    if x == a && exists|j: int| 0 <= j < k + 1 && all@[j] == y {
                        let j = choose|j: int| 0 <= j < k + 1 && all@[j] == y;
                        if j < k {
                            assert(!before.holds(x, y));
                        }
                    }
                    if self.holds(x, y) && x == a {
                        assert(before.holds(x, y));
                        assert(y != all@[k as int]);
                    }
                }
            }
            k += 1;
        }
        proof {
            assert forall|x: ChunkAddress, y: XorName|
                self.holds(x, y) <==> old(self).holds(x, y) && x != a by {
                if old(self).holds(x, y) && x == a {
                    assert(all@.contains(y));
                    let j = choose|j: int| 0 <= j < all@.len() && all@[j] == y;
                }
            }
        }
    }
}

/// The two directions of the index agree: a node is among the holders of a
/// chunk exactly when the chunk is among those that the node holds.
pub proof fn lemma_directions_agree(index: HolderIndex, a: ChunkAddress, n: XorName)
    ensures
        index.holders_of(a).contains(n) <==> index.held_by(n).contains(a),
{
}

} // verus!
