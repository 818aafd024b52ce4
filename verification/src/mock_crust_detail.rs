//! A simulated section for trying the data handlers: nodes and clients with
//! queues in place of a network, the loops that empty the queues, and the
//! checks of where the chunks have come to rest.

pub mod poll;
pub mod test_client;
pub mod test_node;

use crate::handler::REPLICATION_FACTOR;
use crate::messages::{Chunk, ChunkAddress};
use crate::mock_crust_detail::test_node::TestNode;
use crate::name::{lemma_listing_is_unique, lists_by_distance, sort_by_distance, XorName};
use vstd::prelude::*;

verus! {

/// The least size of a close group: it has to hold every copy of a chunk.
pub const MIN_GROUP_SIZE: usize = REPLICATION_FACTOR;

/// The copies of a deleted chunk that may linger: fewer than this many.
pub const LINGERING_COPIES_LIMIT: usize = 5;

/// The names of the nodes.
pub open spec fn node_names(nodes: Seq<TestNode>) -> Set<XorName> {
    Set::new(|x: XorName| exists|i: int| 0 <= i < nodes.len() && (#[trigger] nodes[i]).vault.id == x)
}

/// The names of the nodes that keep the chunk at `a`.
pub open spec fn holder_names(a: ChunkAddress, nodes: Seq<TestNode>) -> Set<XorName> {
    Set::new(
        |x: XorName|
            exists|i: int|
                0 <= i < nodes.len() && (#[trigger] nodes[i]).vault.id == x
                    && nodes[i].vault.idata_holder.chunks.has(a),
    )
}

/// The size of the close group that the first node named `name` sees, and 0
/// where no node has the name.
pub open spec fn group_size_of(nodes: Seq<TestNode>, name: XorName) -> usize
    decreases nodes.len(),
{
    if nodes.len() == 0 {
        0
    } else if nodes[0].vault.id == name {
        nodes[0].group_size
    } else {
        group_size_of(nodes.drop_first(), name)
    }
}

/// The first `n` of a list, or all of it where it is shorter.
pub open spec fn truncated(s: Seq<XorName>, n: usize) -> Seq<XorName> {
    if n <= s.len() {
        s.take(n as int)
    } else {
        s
    }
}

/// `all` lists the nodes and `held` the holders of the chunk at `a`, both
/// closest first, and the chunk is where it belongs: the node closest to it
/// sees a close group of at least the least size, and as far as that group
/// reaches the holders are the closest nodes.
pub open spec fn placement(
    a: ChunkAddress,
    nodes: Seq<TestNode>,
    all: Seq<XorName>,
    held: Seq<XorName>,
) -> bool {
    &&& lists_by_distance(a.name, node_names(nodes), all)
    &&& lists_by_distance(a.name, holder_names(a, nodes), held)
    &&& all.len() > 0
    &&& group_size_of(nodes, all[0]) >= MIN_GROUP_SIZE
    &&& truncated(held, group_size_of(nodes, all[0])) == truncated(all, group_size_of(nodes, all[0]))
}

/// The chunk at `a` is where it belongs among the nodes.
pub open spec fn placed(a: ChunkAddress, nodes: Seq<TestNode>) -> bool {
    exists|all: Seq<XorName>, held: Seq<XorName>| #[trigger] placement(a, nodes, all, held)
}

/// How many of the nodes keep the chunk at `a`.
pub open spec fn copies(a: ChunkAddress, nodes: Seq<TestNode>) -> nat
    decreases nodes.len(),
{
    if nodes.len() == 0 {
        0
    } else {
        copies(a, nodes.drop_last()) + if nodes.last().vault.idata_holder.chunks.has(a) {
            1nat
        } else {
            0nat
        }
    }
}

fn names_of(nodes: &[TestNode]) -> (r: Vec<XorName>)
    ensures
        r@.to_set() =~= node_names(nodes@),
{
    let mut r: Vec<XorName> = Vec::new();
    let mut i: usize = 0;
    while i < nodes.len()
        invariant
            i <= nodes@.len(),
            r@.len() == i,
            forall|j: int| 0 <= j < i ==> r@[j] == nodes@[j].vault.id,
        decreases nodes@.len() - i,
    {
        r.push(nodes[i].name());
        i += 1;
    }
    proof {
        assert forall|x: XorName| r@.to_set().contains(x) <==> node_names(nodes@).contains(x) by {
            if r@.to_set().contains(x) {
                let j = choose|j: int| 0 <= j < r@.len() && r@[j] == x;
                assert(nodes@[j].vault.id == x);
            }
            if node_names(nodes@).contains(x) {
                let j = choose|j: int| 0 <= j < nodes@.len() && (#[trigger] nodes@[j]).vault.id == x;
                assert(r@[j] == x);
            }
        }
    }
    r
}

fn holders_of(a: &ChunkAddress, nodes: &[TestNode]) -> (r: Vec<XorName>)
    requires
        forall|i: int| 0 <= i < nodes@.len() ==> (#[trigger] nodes@[i]).wf(),
    ensures
        r@.to_set() =~= holder_names(*a, nodes@),
{
    let mut r: Vec<XorName> = Vec::new();
    let ghost mut from: Seq<int> = Seq::empty();
    let mut i: usize = 0;
    while i < nodes.len()
        invariant
            i <= nodes@.len(),
            forall|j: int| 0 <= j < nodes@.len() ==> (#[trigger] nodes@[j]).wf(),
            from.len() == r@.len(),
            forall|k: int|
                0 <= k < r@.len() ==> 0 <= #[trigger] from[k] < i && nodes@[from[k]].vault.id == r@[k]
                    && nodes@[from[k]].vault.idata_holder.chunks.has(*a),
            forall|j: int|
                0 <= j < i && (#[trigger] nodes@[j]).vault.idata_holder.chunks.has(*a)
                    ==> r@.contains(nodes@[j].vault.id),
        decreases nodes@.len() - i,
    {
        if nodes[i].stores(a) {
            let ghost r0 = r@;
            r.push(nodes[i].name());
            proof {
                from = from.push(i as int);
                assert(r@[r0.len() as int] == nodes@[i as int].vault.id);
                assert forall|j: int|
                    0 <= j < i + 1 && (#[trigger] nodes@[j]).vault.idata_holder.chunks.has(
                        *a,
                    ) implies r@.contains(nodes@[j].vault.id) by {
                    if j < i {
                        let k = choose|k: int| 0 <= k < r0.len() && r0[k] == nodes@[j].vault.id;
                        assert(r@[k] == nodes@[j].vault.id);
                    }
                }
            }
        }
        i += 1;
    }
    proof {
        assert forall|x: XorName| r@.to_set().contains(x) <==> holder_names(*a, nodes@).contains(
            x,
        ) by {
            if r@.to_set().contains(x) {
                let k = choose|k: int| 0 <= k < r@.len() && r@[k] == x;
                assert(nodes@[from[k]].vault.id == x);
            }
            if holder_names(*a, nodes@).contains(x) {
                let j = choose|j: int|
                    0 <= j < nodes@.len() && (#[trigger] nodes@[j]).vault.id == x
                        && nodes@[j].vault.idata_holder.chunks.has(*a);
                assert(r@.contains(nodes@[j].vault.id));
            }
        }
    }
    r
}

fn group_size(nodes: &[TestNode], name: &XorName) -> (r: usize)
    ensures
        r == group_size_of(nodes@, *name),
{
    let mut i: usize = 0;
    proof {
        assert(nodes@.skip(0) =~= nodes@);
    }
    while i < nodes.len()
        invariant
            i <= nodes@.len(),
            group_size_of(nodes@, *name) == group_size_of(nodes@.skip(i as int), *name),
        decreases nodes@.len() - i,
    {
        proof {
            assert(nodes@.skip(i as int)[0] == nodes@[i as int]);
            assert(nodes@.skip(i as int).drop_first() =~= nodes@.skip(i as int + 1));
        }
        if nodes[i].name() == *name {
            return nodes[i].close_group_len(name);
        }
        i += 1;
    }
    0
}

fn same_start(a: &Vec<XorName>, b: &Vec<XorName>, n: usize) -> (r: bool)
    ensures
        r == (truncated(a@, n) == truncated(b@, n)),
{
    let la = if n <= a.len() {
        n
    } else {
        a.len()
    };
    let lb = if n <= b.len() {
        n
    } else {
        b.len()
    };
    if la != lb {
        return false;
    }
    let mut i: usize = 0;
    while i < la
        invariant
            i <= la,
            la <= a@.len(),
            la <= b@.len(),
            la == truncated(a@, n).len(),
            la == truncated(b@, n).len(),
            forall|j: int| 0 <= j < i ==> a@[j] == b@[j],
        decreases la - i,
    {
        if a[i] != b[i] {
            proof {
                assert(truncated(a@, n)[i as int] == a@[i as int]);
                assert(truncated(b@, n)[i as int] == b@[i as int]);
            }
            return false;
        }
        i += 1;
    }
    proof {
        assert(truncated(a@, n) =~= truncated(b@, n));
    }
    true
}

/// Tells whether one chunk is where it belongs among the nodes.
pub fn check_chunk(a: &ChunkAddress, nodes: &[TestNode]) -> (r: bool)
    requires
        forall|i: int| 0 <= i < nodes@.len() ==> (#[trigger] nodes@[i]).wf(),
    ensures
        r == placed(*a, nodes@),
{
    let names = names_of(nodes);
    let all = sort_by_distance(&a.name, &names);
    let holders = holders_of(a, nodes);
    let held = sort_by_distance(&a.name, &holders);
    proof {
        assert forall|x: Seq<XorName>, y: Seq<XorName>| #[trigger]
            placement(*a, nodes@, x, y) implies x == all@ && y == held@ by {
            lemma_listing_is_unique(a.name, node_names(nodes@), x, all@);
            lemma_listing_is_unique(a.name, holder_names(*a, nodes@), y, held@);
        }
    }
    if all.len() == 0 {
        return false;
    }
    let expected_num_of_holders = group_size(nodes, &all[0]);
    if expected_num_of_holders < MIN_GROUP_SIZE {
        return false;
    }
    let r = same_start(&held, &all, expected_num_of_holders);
    proof {
        if r {
            assert(placement(*a, nodes@, all@, held@));
        }
    }
    r
}

/// Checks that the nodes keep every chunk of `all_data` where it belongs:
/// at the nodes closest to it, as far as the close group of the closest
/// node reaches.
pub fn check_data(all_data: &Vec<Chunk>, nodes: &[TestNode]) -> (r: bool)
    requires
        forall|i: int| 0 <= i < nodes@.len() ==> (#[trigger] nodes@[i]).wf(),
    ensures
        r == forall|i: int| 0 <= i < all_data@.len() ==> placed((#[trigger] all_data@[i]).address, nodes@),
{
    let mut i: usize = 0;
    while i < all_data.len()
        invariant
            i <= all_data@.len(),
            forall|j: int| 0 <= j < nodes@.len() ==> (#[trigger] nodes@[j]).wf(),
            forall|j: int| 0 <= j < i ==> placed((#[trigger] all_data@[j]).address, nodes@),
        decreases all_data@.len() - i,
    {
        if !check_chunk(&all_data[i].address, nodes) {
            return false;
        }
        i += 1;
    }
    true
}

fn count_copies(a: &ChunkAddress, nodes: &[TestNode]) -> (r: usize)
    requires
        forall|i: int| 0 <= i < nodes@.len() ==> (#[trigger] nodes@[i]).wf(),
    ensures
        r == copies(*a, nodes@),
{
    let mut n: usize = 0;
    let mut i: usize = 0;
    while i < nodes.len()
        invariant
            i <= nodes@.len(),
            forall|j: int| 0 <= j < nodes@.len() ==> (#[trigger] nodes@[j]).wf(),
            n <= i,
            n == copies(*a, nodes@.take(i as int)),
        decreases nodes@.len() - i,
    {
        proof {
            assert(nodes@.take(i as int + 1).drop_last() =~= nodes@.take(i as int));
            assert(nodes@.take(i as int + 1).last() == nodes@[i as int]);
        }
        if nodes[i].stores(a) {
            n += 1;
        }
        i += 1;
    }
    proof {
        assert(nodes@.take(nodes@.len() as int) =~= nodes@);
    }
    n
}

/// Checks that of every deleted chunk fewer copies are left among the nodes
/// than may linger.
pub fn check_deleted_data(deleted_data: &[ChunkAddress], nodes: &[TestNode]) -> (r: bool)
    requires
        forall|i: int| 0 <= i < nodes@.len() ==> (#[trigger] nodes@[i]).wf(),
    ensures
        r == forall|i: int|
            0 <= i < deleted_data@.len() ==> copies(#[trigger] deleted_data@[i], nodes@)
                < LINGERING_COPIES_LIMIT,
{
    let mut i: usize = 0;
    while i < deleted_data.len()
        invariant
            i <= deleted_data@.len(),
            forall|j: int| 0 <= j < nodes@.len() ==> (#[trigger] nodes@[j]).wf(),
            forall|j: int|
                0 <= j < i ==> copies(#[trigger] deleted_data@[j], nodes@) < LINGERING_COPIES_LIMIT,
        decreases deleted_data@.len() - i,
    {
        if count_copies(&deleted_data[i], nodes) >= LINGERING_COPIES_LIMIT {
            return false;
        }
        i += 1;
    }
    true
}

} // verus!
