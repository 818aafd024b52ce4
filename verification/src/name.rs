//! Names in the XOR address space and the closeness order that every
//! "closest" choice of the node goes by.

use vstd::prelude::*;

verus! {

/// A 256-bit name: a node's identity or the fingerprint of a chunk. The two
/// fields are the upper and lower 128 bits of the big-endian byte string.
#[derive(Clone, Copy, Debug, PartialEq, Eq, Structural, Hash)]
pub struct XorName {
    pub hi: u128,
    pub lo: u128,
}

/// The natural byte ordering of names.
pub open spec fn name_lt(a: XorName, b: XorName) -> bool {
    a.hi < b.hi || (a.hi == b.hi && a.lo < b.lo)
}

/// `a` is strictly closer to `target` than `b`: its XOR distance is smaller,
/// and on equal distance the smaller name wins.
pub open spec fn closer(target: XorName, a: XorName, b: XorName) -> bool {
    let ah = a.hi ^ target.hi;
    let al = a.lo ^ target.lo;
    let bh = b.hi ^ target.hi;
    let bl = b.lo ^ target.lo;
    ah < bh || (ah == bh && al < bl) || (ah == bh && al == bl && name_lt(a, b))
}

impl XorName {
    /// Tells whether `self` sorts before `other` in the natural byte ordering.
    pub fn lt(&self, other: &XorName) -> (r: bool)
        ensures
            r == name_lt(*self, *other),
    {
        self.hi < other.hi || (self.hi == other.hi && self.lo < other.lo)
    }

    /// Tells whether `a` is strictly closer to `self` than `b`.
    pub fn closer(&self, a: &XorName, b: &XorName) -> (r: bool)
        ensures
            r == closer(*self, *a, *b),
    {
        let ah: u128 = a.hi ^ self.hi;
        let al: u128 = a.lo ^ self.lo;
        let bh: u128 = b.hi ^ self.hi;
        let bl: u128 = b.lo ^ self.lo;
        ah < bh || (ah == bh && al < bl) || (ah == bh && al == bl && a.lt(b))
    }
}

/// Closeness to one target is a strict total order on names.
pub proof fn lemma_closer_total_order(t: XorName, a: XorName, b: XorName, c: XorName)
    ensures
        !closer(t, a, a),
        closer(t, a, b) ==> !closer(t, b, a),
        closer(t, a, b) && closer(t, b, c) ==> closer(t, a, c),
        a != b ==> closer(t, a, b) || closer(t, b, a),
{
}

/// `s` lists distinct names, each strictly closer to `target` than the next.
pub open spec fn sorted_by_distance(target: XorName, s: Seq<XorName>) -> bool {
    forall|i: int, j: int| 0 <= i < j < s.len() ==> closer(target, s[i], s[j])
}

/// `r` is the list of the `k` names of `pool` closest to `target`, closest
/// first: it holds names of the pool only, and a name of the pool is left out
/// only when `r` is full and every name in it is closer.
pub open spec fn is_closest(target: XorName, pool: Set<XorName>, k: nat, r: Seq<XorName>) -> bool {
    &&& sorted_by_distance(target, r)
    &&& r.len() <= k
    &&& forall|i: int| 0 <= i < r.len() ==> pool.contains(#[trigger] r[i])
    &&& forall|c: XorName| #[trigger]
        pool.contains(c) && !r.contains(c) ==> r.len() == k && forall|i: int|
            0 <= i < r.len() ==> closer(target, #[trigger] r[i], c)
}

/// Tells whether `x` occurs in `v`.
pub fn contains_name(v: &Vec<XorName>, x: &XorName) -> (r: bool)
    ensures
        r == v@.contains(*x),
{
    let mut i: usize = 0;
    while i < v.len()
        invariant
            i <= v.len(),
            forall|j: int| 0 <= j < i ==> v@[j] != *x,
        decreases v.len() - i,
    {
        if v[i] == *x {
            return true;
        }
        i += 1;
    }
    false
}

/// `r` lists the names of `pool`, each once, closest to `target` first.
pub open spec fn lists_by_distance(target: XorName, pool: Set<XorName>, r: Seq<XorName>) -> bool {
    &&& sorted_by_distance(target, r)
    &&& forall|c: XorName| r.contains(c) <==> pool.contains(c)
}

/// A list in order of closeness names nothing twice.
pub proof fn lemma_sorted_is_distinct(target: XorName, s: Seq<XorName>)
    requires
        sorted_by_distance(target, s),
    ensures
        s.no_duplicates(),
{
    assert forall|i: int, j: int| 0 <= i < s.len() && 0 <= j < s.len() && i != j implies s[i]
        != s[j] by {
        if i < j {
            assert(closer(target, s[i], s[j]));
        } else {
            assert(closer(target, s[j], s[i]));
        }
    }
}

/// Lists the names of `pool` in order of closeness to `target`. A name that
/// occurs twice in `pool` is listed once.
pub fn sort_by_distance(target: &XorName, pool: &Vec<XorName>) -> (r: Vec<XorName>)
    ensures
        lists_by_distance(*target, pool@.to_set(), r@),
        r@.len() <= pool@.len(),
{
    let mut r: Vec<XorName> = Vec::new();
    let mut i: usize = 0;
    while i < pool.len()
        invariant
            i <= pool.len(),
            r@.len() <= i,
            lists_by_distance(*target, pool@.take(i as int).to_set(), r@),
        decreases pool.len() - i,
    {
        let c = pool[i];
        let ghost before = pool@.take(i as int).to_set();
        let ghost after = pool@.take(i as int + 1).to_set();
        let ghost r0 = r@;
        proof {
            let sa = pool@.take(i as int);
            let sb = pool@.take(i as int + 1);
            assert(sb =~= sa.push(c));
            assert forall|x: XorName| after.contains(x) <==> before.contains(x) || x == c by {
                if after.contains(x) {
                    let j = choose|j: int| 0 <= j < sb.len() && sb[j] == x;
                    if j < sa.len() {
                        assert(sa[j] == x);
                    }
                }
                if before.contains(x) {
                    let j = choose|j: int| 0 <= j < sa.len() && sa[j] == x;
                    assert(sb[j] == x);
                }
                if x == c {
                    assert(sb[sa.len() as int] == c);
                }
            }
        }
        let mut p: usize = 0;
        while p < r.len() && target.closer(&r[p], &c)
            invariant
                p <= r.len(),
                r@ == r0,
                forall|m: int| 0 <= m < p ==> closer(*target, r@[m], c),
            decreases r.len() - p,
        {
            p += 1;
        }
        if p < r.len() && r[p] == c {
            assert(r@.contains(c));
        } else {
            proof {
                assert(forall|m: int| p <= m < r0.len() ==> closer(*target, c, r0[m])) by {
                    if p < r0.len() {
                        lemma_closer_total_order(*target, c, r0[p as int], c);
                        assert forall|m: int| p <= m < r0.len() implies closer(*target, c, r0[m]) by {
                            lemma_closer_total_order(*target, c, r0[p as int], r0[m]);
                        }
                    }
                }
            }
            r.insert(p, c);
            let ghost r1 = r@;
            proof {
                assert(r1 == r0.insert(p as int, c));
                assert(sorted_by_distance(*target, r1)) by {
                    assert forall|a: int, b: int| 0 <= a < b < r1.len() implies closer(
                        *target,
                        r1[a],
                        r1[b],
                    ) by {
                        let x = r1[a];
                        let y = r1[b];
                        if b < p {
                            assert(x == r0[a] && y == r0[b]);
                        } else if b == p {
                            assert(x == r0[a]);
                        } else if a < p {
                            assert(x == r0[a] && y == r0[b - 1]);
                            lemma_closer_total_order(*target, x, c, y);
                        } else if a == p {
                            assert(y == r0[b - 1]);
                        } else {
                            assert(x == r0[a - 1] && y == r0[b - 1]);
                        }
                    }
                }
                assert forall|x: XorName| r1.contains(x) <==> r0.contains(x) || x == c by {
                    if r1.contains(x) {
                        let m = choose|m: int| 0 <= m < r1.len() && r1[m] == x;
                        if m < p {
                            assert(r0[m] == x);
                        } else if m > p {
                            assert(r0[m - 1] == x);
                        }
                    }
                    if r0.contains(x) {
                        let m = choose|m: int| 0 <= m < r0.len() && r0[m] == x;
                        if m < p {
                            assert(r1[m] == x);
                        } else {
                            assert(r1[m + 1] == x);
                        }
                    }
                    if x == c {
                        assert(r1[p as int] == c);
                    }
                }
            }
        }
        i += 1;
    }
    proof {
        assert(pool@.take(pool.len() as int) =~= pool@);
    }
    r
}

/// `r` lists the names of `pool`, each once, in the natural byte ordering:
/// the order in which a set of names is walked.
pub open spec fn lists_by_name(pool: Set<XorName>, r: Seq<XorName>) -> bool {
    &&& forall|i: int, j: int| 0 <= i < j < r.len() ==> name_lt(r[i], r[j])
    &&& forall|c: XorName| r.contains(c) <==> pool.contains(c)
}

/// Lists the names of `pool` in the natural byte ordering. A name that
/// occurs twice in `pool` is listed once.
pub fn sort_by_name(pool: &Vec<XorName>) -> (r: Vec<XorName>)
    ensures
        lists_by_name(pool@.to_set(), r@),
        r@.len() <= pool@.len(),
{
    let origin = XorName { hi: 0, lo: 0 };
    let r = sort_by_distance(&origin, pool);
    proof {
        assert forall|i: int, j: int| 0 <= i < j < r@.len() implies name_lt(r@[i], r@[j]) by {
            let a = r@[i];
            let b = r@[j];
            assert(closer(origin, a, b));
            let (ah, al, bh, bl) = (a.hi, a.lo, b.hi, b.lo);
            assert(ah ^ 0u128 == ah && al ^ 0u128 == al) by (bit_vector);
            assert(bh ^ 0u128 == bh && bl ^ 0u128 == bl) by (bit_vector);
        }
    }
    r
}

/// Picks the `k` names of `pool` closest to `target`, closest first. A name
/// that occurs twice in `pool` counts once.
pub fn closest_k(target: &XorName, pool: &Vec<XorName>, k: usize) -> (r: Vec<XorName>)
    ensures
        is_closest(*target, pool@.to_set(), k as nat, r@),
{
    let mut r = sort_by_distance(target, pool);
    let ghost all = r@;
    if r.len() > k {
        r.truncate(k);
    }
    proof {
        let set = pool@.to_set();
        assert(forall|i: int| 0 <= i < r@.len() ==> r@[i] == all[i]);
        assert forall|i: int| 0 <= i < r@.len() implies set.contains(#[trigger] r@[i]) by {
            assert(all.contains(all[i]));
        }
        assert forall|c: XorName| #[trigger] set.contains(c) && !r@.contains(c) implies r@.len()
            == k && forall|i: int| 0 <= i < r@.len() ==> closer(*target, #[trigger] r@[i], c) by {
            assert(all.contains(c));
            let m = choose|m: int| 0 <= m < all.len() && all[m] == c;
            if m < r@.len() {
                assert(r@[m] == c);
            }
        }
    }
    r
}

/// Two lists of the `k` closest names of one pool are the same list.
pub proof fn lemma_closest_is_unique(
    target: XorName,
    pool: Set<XorName>,
    k: nat,
    r1: Seq<XorName>,
    r2: Seq<XorName>,
)
    requires
        is_closest(target, pool, k, r1),
        is_closest(target, pool, k, r2),
    ensures
        r1 == r2,
{
    lemma_sorted_is_distinct(target, r1);
    lemma_sorted_is_distinct(target, r2);
    lemma_common_prefix(target, pool, k, r1, r2, 0);
    lemma_common_prefix(target, pool, k, r2, r1, 0);
    if r1.len() <= r2.len() {
        lemma_same_length(target, pool, k, r1, r2);
    } else {
        lemma_same_length(target, pool, k, r2, r1);
    }
    assert(r1 =~= r2);
}

proof fn lemma_common_prefix(
    target: XorName,
    pool: Set<XorName>,
    k: nat,
    r1: Seq<XorName>,
    r2: Seq<XorName>,
    n: int,
)
    requires
        is_closest(target, pool, k, r1),
        is_closest(target, pool, k, r2),
        0 <= n,
        forall|i: int| 0 <= i < n && i < r1.len() && i < r2.len() ==> r1[i] == r2[i],
    ensures
        forall|i: int| 0 <= i < r1.len() && i < r2.len() ==> r1[i] == r2[i],
    decreases r1.len() - n,
{
    if n < r1.len() && n < r2.len() {
        let a = r1[n];
        let b = r2[n];
        lemma_closer_total_order(target, a, b, a);
        lemma_not_before(target, pool, k, r1, r2, n);
        lemma_not_before(target, pool, k, r2, r1, n);
        lemma_common_prefix(target, pool, k, r1, r2, n + 1);
    }
}

proof fn lemma_not_before(
    target: XorName,
    pool: Set<XorName>,
    k: nat,
    r1: Seq<XorName>,
    r2: Seq<XorName>,
    n: int,
)
    requires
        is_closest(target, pool, k, r1),
        is_closest(target, pool, k, r2),
        0 <= n < r1.len(),
        n < r2.len(),
        forall|i: int| 0 <= i < n ==> r1[i] == r2[i],
    ensures
        !closer(target, r1[n], r2[n]),
{
    let a = r1[n];
    assert(pool.contains(a));
    if r2.contains(a) {
        let m = choose|m: int| 0 <= m < r2.len() && r2[m] == a;
        if m < n {
            assert(r1[m] == a);
            assert(closer(target, r1[m], r1[n]));
        } else if m > n {
            assert(closer(target, r2[n], r2[m]));
        }
        lemma_closer_total_order(target, a, r2[n], a);
    } else {
        assert(closer(target, r2[n], a));
        lemma_closer_total_order(target, a, r2[n], a);
    }
}

proof fn lemma_same_length(
    target: XorName,
    pool: Set<XorName>,
    k: nat,
    r1: Seq<XorName>,
    r2: Seq<XorName>,
)
    requires
        is_closest(target, pool, k, r1),
        is_closest(target, pool, k, r2),
        r1.len() <= r2.len(),
        forall|i: int| 0 <= i < r1.len() && i < r2.len() ==> r1[i] == r2[i],
    ensures
        r1.len() == r2.len(),
{
    if r1.len() < r2.len() {
        let c = r2[r1.len() as int];
        assert(pool.contains(c));
        if r1.contains(c) {
            let m = choose|m: int| 0 <= m < r1.len() && r1[m] == c;
            assert(r2[m] == c);
            assert(closer(target, r2[m], r2[r1.len() as int]));
            lemma_closer_total_order(target, c, c, c);
        } else {
            assert(r1.len() == k);
        }
    }
}

/// Two lists of one pool in order of closeness are the same list.
pub proof fn lemma_listing_is_unique(
    target: XorName,
    pool: Set<XorName>,
    l1: Seq<XorName>,
    l2: Seq<XorName>,
)
    requires
        lists_by_distance(target, pool, l1),
        lists_by_distance(target, pool, l2),
    ensures
        l1 == l2,
{
    let k: nat = if l1.len() >= l2.len() {
        l1.len()
    } else {
        l2.len()
    };
    assert(is_closest(target, pool, k, l1)) by {
        assert forall|i: int| 0 <= i < l1.len() implies pool.contains(#[trigger] l1[i]) by {
            assert(l1.contains(l1[i]));
        }
    }
    assert(is_closest(target, pool, k, l2)) by {
        assert forall|i: int| 0 <= i < l2.len() implies pool.contains(#[trigger] l2[i]) by {
            assert(l2.contains(l2[i]));
        }
    }
    lemma_closest_is_unique(target, pool, k, l1, l2);
}

} // verus!
