//! The chunk store of a holder: a map from address to contents under a quota
//! on the bytes it keeps.

use crate::codec::{decode_name, encode_name, name_bytes, name_from_bytes};
use crate::crypto::{digest, sha3_256};
use crate::messages::{copy_bytes, Chunk, ChunkAddress, ChunkKind, Error};
use crate::name::XorName;
use vstd::prelude::*;

verus! {

/// What is kept under an address.
pub ghost struct ChunkData {
    pub owner: Option<XorName>,
    pub bytes: Seq<u8>,
}

/// The bytes that the fingerprint of a chunk is taken of: the contents, and
/// for a private chunk the owner's name behind them.
pub open spec fn fingerprint_input(
    kind: ChunkKind,
    owner: Option<XorName>,
    bytes: Seq<u8>,
) -> Seq<u8> {
    match (kind, owner) {
        (ChunkKind::Private, Some(o)) => bytes + name_bytes(o),
        _ => bytes,
    }
}

/// The one address that a chunk of this kind, owner and contents has.
pub open spec fn address_of(
    kind: ChunkKind,
    owner: Option<XorName>,
    bytes: Seq<u8>,
) -> ChunkAddress {
    ChunkAddress { kind, name: name_from_bytes(sha3_256(fingerprint_input(kind, owner, bytes))) }
}

/// A chunk is well addressed when a public one has no owner, a private one
/// has one, and the address is the one its contents give.
pub open spec fn well_addressed(c: Chunk) -> bool {
    &&& (c.address.kind == ChunkKind::Public <==> c.owner is None)
    &&& c.address == address_of(c.address.kind, c.owner, c.bytes@)
}

/// Computes the address of a chunk from its kind, owner and contents.
pub fn chunk_address(kind: ChunkKind, owner: &Option<XorName>, bytes: &Vec<u8>) -> (a: ChunkAddress)
    ensures
        a == address_of(kind, *owner, bytes@),
{
    let mut input = copy_bytes(bytes);
    match (kind, owner) {
        (ChunkKind::Private, Some(o)) => {
            encode_name(&mut input, o);
        },
        _ => {},
    }
    let d = digest(input.as_slice());
    ChunkAddress { kind, name: decode_name(&d) }
}

/// Tells whether a chunk is well addressed.
pub fn check_address(c: &Chunk) -> (r: bool)
    ensures
        r == well_addressed(*c),
{
    let owner_fits = match (c.address.kind, &c.owner) {
        (ChunkKind::Public, None) => true,
        (ChunkKind::Private, Some(_)) => true,
        _ => false,
    };
    if !owner_fits {
        return false;
    }
    let a = chunk_address(c.address.kind, &c.owner, &c.bytes);
    a == c.address
}

/// The bytes that a list of chunks takes.
pub open spec fn total_size(s: Seq<Chunk>) -> nat
    decreases s.len(),
{
    if s.len() == 0 {
        0
    } else {
        total_size(s.drop_last()) + s.last().bytes@.len()
    }
}

proof fn lemma_total_push(s: Seq<Chunk>, c: Chunk)
    ensures
        total_size(s.push(c)) == total_size(s) + c.bytes@.len(),
{
    assert(s.push(c).drop_last() =~= s);
}

proof fn lemma_total_remove(s: Seq<Chunk>, i: int)
    requires
        0 <= i < s.len(),
    ensures
        total_size(s.remove(i)) + s[i].bytes@.len() == total_size(s),
    decreases s.len(),
{
    if i == s.len() - 1 {
        assert(s.remove(i) =~= s.drop_last());
    } else {
        lemma_total_remove(s.drop_last(), i);
        assert(s.remove(i).drop_last() =~= s.drop_last().remove(i));
        assert(s.remove(i).last() == s.last());
    }
}

/// The chunks of one holder and the space they take.
pub struct ChunkStore {
    chunks: Vec<Chunk>,
    used: u64,
    max_capacity: u64,
}

impl ChunkStore {
    /// The store keeps at most one chunk under an address, counts the bytes
    /// it keeps, and stays within its quota.
    pub closed spec fn wf(&self) -> bool {
        &&& forall|i: int, j: int|
            0 <= i < j < self.chunks@.len() ==> self.chunks@[i].address != self.chunks@[j].address
        &&& self.used == total_size(self.chunks@)
        &&& self.used <= self.max_capacity
    }

    /// The addresses in use.
    pub closed spec fn has(&self, a: ChunkAddress) -> bool {
        exists|i: int| 0 <= i < self.chunks@.len() && self.chunks@[i].address == a
    }

    /// What is kept under `a`, where `has(a)`.
    pub closed spec fn data(&self, a: ChunkAddress) -> ChunkData {
        let i = choose|i: int| 0 <= i < self.chunks@.len() && self.chunks@[i].address == a;
        ChunkData { owner: self.chunks@[i].owner, bytes: self.chunks@[i].bytes@ }
    }

    /// The bytes in use.
    pub closed spec fn used_space(&self) -> nat {
        self.used as nat
    }

    /// The quota.
    pub closed spec fn capacity(&self) -> nat {
        self.max_capacity as nat
    }

    /// `after` holds what `self` holds.
    pub open spec fn unchanged(&self, after: &ChunkStore) -> bool {
        &&& after.used_space() == self.used_space()
        &&& after.capacity() == self.capacity()
        &&& forall|a: ChunkAddress| after.has(a) == self.has(a)
        &&& forall|a: ChunkAddress| self.has(a) ==> after.data(a) == self.data(a)
    }

    /// An empty store with the given quota.
    pub fn new(max_capacity: u64) -> (s: ChunkStore)
        ensures
            s.wf(),
            s.capacity() == max_capacity,
            s.used_space() == 0,
            forall|a: ChunkAddress| !s.has(a),
    {
        ChunkStore { chunks: Vec::new(), used: 0, max_capacity }
    }

    fn find(&self, a: &ChunkAddress) -> (r: Option<usize>)
        requires
            self.wf(),
        ensures
            r is Some <==> self.has(*a),
            r matches Some(i) ==> i < self.chunks@.len() && self.chunks@[i as int].address == *a
                && self.data(*a) == (ChunkData {
                owner: self.chunks@[i as int].owner,
                bytes: self.chunks@[i as int].bytes@,
            }),
    {
        let mut i: usize = 0;
        while i < self.chunks.len()
            invariant
                self.wf(),
                i <= self.chunks@.len(),
                forall|j: int| 0 <= j < i ==> self.chunks@[j].address != *a,
            decreases self.chunks@.len() - i,
        {
            if self.chunks[i].address == *a {
                proof {
                    let k = choose|k: int|
                        0 <= k < self.chunks@.len() && self.chunks@[k].address == *a;
                    assert(k == i);
                }
                return Some(i);
            }
            i += 1;
        }
        None
    }

    /// Lists the addresses in use, each once, as for keeping the files of
    /// the store in step with it.
    pub fn addresses(&self) -> (r: Vec<ChunkAddress>)
        requires
            self.wf(),
        ensures
            forall|i: int, j: int| 0 <= i < j < r@.len() ==> r@[i] != r@[j],
            forall|a: ChunkAddress| r@.contains(a) <==> self.has(a),
    {
        let mut r: Vec<ChunkAddress> = Vec::new();
        let mut i: usize = 0;
        while i < self.chunks.len()
            invariant
                i <= self.chunks@.len(),
                r@.len() == i,
                forall|j: int| 0 <= j < i ==> r@[j] == self.chunks@[j].address,
            decreases self.chunks@.len() - i,
        {
            r.push(self.chunks[i].address);
            i += 1;
        }
        proof {
            assert forall|a: ChunkAddress| r@.contains(a) <==> self.has(a) by {
                if r@.contains(a) {
                    let j = choose|j: int| 0 <= j < r@.len() && r@[j] == a;
                    assert(self.chunks@[j].address == a);
                }
                if self.has(a) {
                    let j = choose|j: int|
                        0 <= j < self.chunks@.len() && self.chunks@[j].address == a;
                    assert(r@[j] == a);
                }
            }
        }
        r
    }

    /// What `put` answers for a chunk.
    pub open spec fn put_outcome(&self, c: Chunk) -> Result<(), Error> {
        if !well_addressed(c) {
            Err(Error::AddressMismatch)
        } else if self.used_space() + c.bytes@.len() > self.capacity() {
            Err(Error::QuotaExceeded)
        } else if !self.has(c.address) {
            Ok(())
        } else if c.address.kind == ChunkKind::Public {
            Err(Error::AlreadyExists)
        } else if self.data(c.address).owner != c.owner {
            Err(Error::AccessDenied)
        } else {
            Ok(())
        }
    }

    /// `after` is `self` with `chunk` stored under its address, and nothing
    /// else changed.
    pub open spec fn stored(&self, chunk: Chunk, after: &ChunkStore) -> bool {
        &&& after.has(chunk.address)
        &&& after.data(chunk.address) == (ChunkData { owner: chunk.owner, bytes: chunk.bytes@ })
        &&& forall|a: ChunkAddress| a != chunk.address ==> after.has(a) == self.has(a)
        &&& forall|a: ChunkAddress|
            a != chunk.address && self.has(a) ==> after.data(a) == self.data(a)
        &&& after.used_space() == self.used_space() + chunk.bytes@.len() - (if self.has(
            chunk.address,
        ) {
            self.data(chunk.address).bytes.len()
        } else {
            0
        })
    }

    /// `after` is `self` without the chunk under `address`, its space given
    /// back, and nothing else changed.
    pub open spec fn deleted(&self, address: ChunkAddress, after: &ChunkStore) -> bool {
        &&& !after.has(address)
        &&& forall|a: ChunkAddress| a != address ==> after.has(a) == self.has(a)
        &&& forall|a: ChunkAddress| a != address && self.has(a) ==> after.data(a) == self.data(a)
        &&& after.used_space() + self.data(address).bytes.len() == self.used_space()
    }

    /// What `get` answers.
    pub open spec fn got(&self, address: ChunkAddress, r: Result<Chunk, Error>) -> bool {
        match r {
            Ok(c) => self.has(address) && c.address == address && c.owner == self.data(
                address,
            ).owner && c.bytes@ == self.data(address).bytes,
            Err(e) => !self.has(address) && e == Error::NoSuchData,
        }
    }

    /// Stores a chunk under its address. A chunk whose contents do not give
    /// its address is refused, then one that would exceed the quota, then a
    /// public one that is already there, then a private one that another
    /// owner holds. A private chunk of the same owner is written over.
    pub fn put(&mut self, chunk: Chunk) -> (r: Result<(), Error>)
        requires
            old(self).wf(),
        ensures
            final(self).wf(),
            r == old(self).put_outcome(chunk),
            final(self).capacity() == old(self).capacity(),
            r is Err ==> old(self).unchanged(final(self)),
            r is Ok ==> old(self).stored(chunk, final(self)),
    {
        if !check_address(&chunk) {
            return Err(Error::AddressMismatch);
        }
        let len = chunk.bytes.len() as u64;
        if len > self.max_capacity - self.used {
            return Err(Error::QuotaExceeded);
        }
        let ghost before = self.chunks@;
        let ghost mut cut: int = before.len() as int;
        match self.find(&chunk.address) {
            None => {},
            Some(i) => {
                if chunk.address.kind == ChunkKind::Public {
                    return Err(Error::AlreadyExists);
                }
                if self.chunks[i].owner != chunk.owner {
                    return Err(Error::AccessDenied);
                }
                proof {
                    lemma_total_remove(self.chunks@, i as int);
                    cut = i as int;
                }
                let gone = self.chunks.remove(i);
                self.used = self.used - gone.bytes.len() as u64;
            },
        }
        let ghost mid = self.chunks@;
        proof {
            lemma_total_push(mid, chunk);
            assert(forall|j: int| 0 <= j < cut && j < mid.len() ==> mid[j] == before[j]);
            assert(forall|j: int| cut <= j < mid.len() ==> mid[j] == before[j + 1]);
            assert(forall|j: int| 0 <= j < mid.len() ==> mid[j].address != chunk.address);
        }
        self.used = self.used + len;
        self.chunks.push(chunk);
        proof {
            let after = self.chunks@;
            assert(after[after.len() - 1] == chunk);
            assert(forall|j: int| 0 <= j < mid.len() ==> after[j] == mid[j]);
            assert forall|a: ChunkAddress| a != chunk.address implies final(self).has(a) == old(self).has(a) by {
                if old(self).has(a) {
                    let k = choose|k: int| 0 <= k < before.len() && before[k].address == a;
                    if k < cut {
                        assert(after[k].address == a);
                    } else {
                        assert(after[k - 1].address == a);
                    }
                }
                if final(self).has(a) {
                    let j = choose|j: int| 0 <= j < after.len() && after[j].address == a;
                    if j < cut {
                        assert(before[j].address == a);
                    } else {
                        assert(before[j + 1].address == a);
                    }
                }
            }
            assert forall|a: ChunkAddress|
                a != chunk.address && old(self).has(a) implies final(self).data(a) == old(self).data(a) by {
                let k = choose|k: int| 0 <= k < before.len() && before[k].address == a;
                let j = choose|j: int| 0 <= j < after.len() && after[j].address == a;
                if j < cut {
                    assert(before[j].address == a);
                    assert(j == k);
                } else {
                    assert(before[j + 1].address == a);
                    assert(j + 1 == k);
                }
            }
            assert(final(self).has(chunk.address));
            let j = choose|j: int| 0 <= j < after.len() && after[j].address == chunk.address;
            assert(j == after.len() - 1);
        }
        Ok(())
    }

    /// Reads the chunk kept under an address.
    pub fn get(&self, address: &ChunkAddress) -> (r: Result<Chunk, Error>)
        requires
            self.wf(),
        ensures
            self.got(*address, r),
    {
        match self.find(address) {
            Some(i) => Ok(self.chunks[i].duplicate()),
            None => Err(Error::NoSuchData),
        }
    }

    /// What `delete` answers.
    pub open spec fn delete_outcome(
        &self,
        a: ChunkAddress,
        requester: XorName,
    ) -> Result<(), Error> {
        if a.kind == ChunkKind::Public {
            Err(Error::InvalidOperation)
        } else if !self.has(a) {
            Err(Error::NoSuchData)
        } else if self.data(a).owner != Some(requester) {
            Err(Error::AccessDenied)
        } else {
            Ok(())
        }
    }

    /// Removes a private chunk on its owner's request and gives its space
    /// back to the quota.
    pub fn delete(&mut self, address: &ChunkAddress, requester: &XorName) -> (r: Result<(), Error>)
        requires
            old(self).wf(),
        ensures
            final(self).wf(),
            r == old(self).delete_outcome(*address, *requester),
            final(self).capacity() == old(self).capacity(),
            r is Err ==> old(self).unchanged(final(self)),
            r is Ok ==> old(self).deleted(*address, final(self)),
    {
        if address.kind == ChunkKind::Public {
            return Err(Error::InvalidOperation);
        }
        let ghost before = self.chunks@;
        match self.find(address) {
            None => Err(Error::NoSuchData),
            Some(i) => {
                match self.chunks[i].owner {
                    Some(o) => {
                        if o != *requester {
                            return Err(Error::AccessDenied);
                        }
                    },
                    None => {
                        return Err(Error::AccessDenied);
                    },
                }
                proof {
                    lemma_total_remove(self.chunks@, i as int);
                }
                let gone = self.chunks.remove(i);
                self.used = self.used - gone.bytes.len() as u64;
                proof {
                    let after = self.chunks@;
                    assert(forall|j: int| 0 <= j < i ==> after[j] == before[j]);
                    assert(forall|j: int| i <= j < after.len() ==> after[j] == before[j + 1]);
                    assert forall|a: ChunkAddress| a != *address implies final(self).has(a) == old(self).has(a) by {
                        if old(self).has(a) {
                            let k = choose|k: int| 0 <= k < before.len() && before[k].address == a;
                            if k < i {
                                assert(after[k].address == a);
                            } else {
                                assert(after[k - 1].address == a);
                            }
                        }
                        if final(self).has(a) {
                            let j = choose|j: int| 0 <= j < after.len() && after[j].address == a;
                            if j < i {
                                assert(before[j].address == a);
                            } else {
                                assert(before[j + 1].address == a);
                            }
                        }
                    }
                    assert forall|a: ChunkAddress|
                        a != *address && old(self).has(a) implies final(self).data(a) == old(self).data(a) by {
                        let k = choose|k: int| 0 <= k < before.len() && before[k].address == a;
                        let j = choose|j: int| 0 <= j < after.len() && after[j].address == a;
                        if j < i {
                            assert(before[j].address == a);
                            assert(j == k);
                        } else {
                            assert(before[j + 1].address == a);
                            assert(j + 1 == k);
                        }
                    }
                    assert(!final(self).has(*address)) by {
                        if final(self).has(*address) {
                            let j = choose|j: int|
                                0 <= j < after.len() && after[j].address == *address;
                            if j < i {
                                assert(before[j].address == *address);
                            } else {
                                assert(before[j + 1].address == *address);
                            }
                        }
                    }
                }
                Ok(())
            },
        }
    }
}

/// A chunk that was stored is read back under its address with the same
/// owner and the same contents, and its contents give that address.
pub proof fn lemma_store_then_get(
    before: ChunkStore,
    after: ChunkStore,
    c: Chunk,
    r: Result<Chunk, Error>,
)
    requires
        before.put_outcome(c) is Ok,
        before.stored(c, &after),
        after.got(c.address, r),
    ensures
        r is Ok,
        r->Ok_0.same(c),
        r->Ok_0.address == address_of(c.address.kind, r->Ok_0.owner, r->Ok_0.bytes@),
{
}

} // verus!
