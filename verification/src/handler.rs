//! The elder side of chunk storage: picking holders for a write, asking the
//! closest holder for a read, keeping count of the answers, and ordering a
//! new copy when a holder is lost.

use crate::chunk_store::{check_address, well_addressed};
use crate::codec::{decode_name, encode_name, name_bytes, name_from_bytes};
use crate::crypto::{digest, sha3_256};
use crate::holder_index::HolderIndex;
use crate::messages::{
    Action, Chunk, ChunkAddress, ChunkKind, Error, IDataRequest, MessageId, PublicId, Request,
    Response, Rpc,
};
use crate::name::{
    closest_k, contains_name, is_closest, lists_by_distance, sort_by_distance, XorName,
};
use vstd::prelude::*;

verus! {

/// How many holders a chunk is given.
pub const REPLICATION_FACTOR: usize = 4;

/// The successes that settle an operation on `n` holders: two thirds of
/// them, rounded up.
pub open spec fn quorum(n: nat) -> nat {
    (2 * n + 2) / 3
}

/// Computes the quorum of `n` holders.
pub fn quorum_of(n: usize) -> (q: usize)
    ensures
        q == quorum(n as nat),
{
    n - n / 3
}

/// What an operation in flight is doing.
#[derive(Clone, Copy, Debug, PartialEq, Eq, Structural)]
pub enum OpType {
    Put,
    Get,
    Delete,
}

/// One answer of a holder.
pub type Ack = (XorName, Result<(), Error>);

/// A write, read or delete that the elders are driving. For a write or a
/// delete `acks` holds the answers so far. For a read the holders are asked
/// one after the other, closest first, and `acks` holds the failures so far:
/// the holder being asked is the one at position `acks.len()`.
#[derive(Debug)]
pub struct ChunkOp {
    pub message_id: MessageId,
    pub op_type: OpType,
    pub address: ChunkAddress,
    pub requester: PublicId,
    pub holders: Vec<XorName>,
    pub acks: Vec<Ack>,
}

/// A repair in flight: `new_holder` was ordered to take a copy of the chunk
/// at `address` in place of the node that was lost.
#[derive(Clone, Copy, Debug, PartialEq, Eq, Structural)]
pub struct DuplicationOp {
    pub message_id: MessageId,
    pub address: ChunkAddress,
    pub lost: XorName,
    pub new_holder: XorName,
}

/// How many of the answers are successes.
pub open spec fn successes(acks: Seq<Ack>) -> nat
    decreases acks.len(),
{
    if acks.len() == 0 {
        0
    } else {
        successes(acks.drop_last()) + if acks.last().1 is Ok {
            1nat
        } else {
            0nat
        }
    }
}

/// Node `n` has answered.
pub open spec fn acked(acks: Seq<Ack>, n: XorName) -> bool {
    exists|i: int| 0 <= i < acks.len() && acks[i].0 == n
}

/// Node `n` has answered with success.
pub open spec fn acked_ok(acks: Seq<Ack>, n: XorName) -> bool {
    exists|i: int| 0 <= i < acks.len() && acks[i].0 == n && acks[i].1 is Ok
}

/// The error of the latest failure among the answers.
pub open spec fn last_error(acks: Seq<Ack>) -> Error
    decreases acks.len(),
{
    if acks.len() == 0 {
        Error::NoSuchData
    } else {
        match acks.last().1 {
            Err(e) => e,
            Ok(_) => last_error(acks.drop_last()),
        }
    }
}

/// `r` is one answer to the elders that speak for the client.
pub open spec fn tells_client(
    r: Option<Action>,
    sender: XorName,
    requester: PublicId,
    message_id: MessageId,
    response: Response,
) -> bool {
    r matches Some(
        Action::RespondToClientHandlers {
            sender: s,
            rpc: Rpc::Response { response: given, requester: q, message_id: m, request_proof },
        },
    ) && s == sender && q == requester && m == message_id && request_proof is None && given.same(response)
}

/// `r` sends one chunk request from `sender` to `targets`.
pub open spec fn sends(
    r: Option<Action>,
    sender: XorName,
    targets: Seq<XorName>,
    requester: PublicId,
    message_id: MessageId,
    request: IDataRequest,
) -> bool {
    r matches Some(
        Action::SendMessage {
            sender: s,
            targets: t,
            rpc: Rpc::Request { request: Request::IData(given), requester: q, message_id: m },
        },
    ) && s == sender && t@ == targets && q == requester && m == message_id && given.same(request)
}

fn count_ok(acks: &Vec<Ack>) -> (n: usize)
    ensures
        n == successes(acks@),
        n <= acks@.len(),
{
    let mut n: usize = 0;
    let mut i: usize = 0;
    while i < acks.len()
        invariant
            i <= acks@.len(),
            n <= i,
            n == successes(acks@.take(i as int)),
        decreases acks@.len() - i,
    {
        proof {
            assert(acks@.take(i as int + 1).drop_last() =~= acks@.take(i as int));
        }
        match acks[i].1 {
            Ok(_) => {
                n += 1;
            },
            Err(_) => {},
        }
        i += 1;
    }
    proof {
        assert(acks@.take(acks@.len() as int) =~= acks@);
    }
    n
}

fn latest_error(acks: &Vec<Ack>) -> (e: Error)
    ensures
        e == last_error(acks@),
{
    let mut i: usize = acks.len();
    proof {
        assert(acks@.take(acks@.len() as int) =~= acks@);
    }
    while i > 0
        invariant
            i <= acks@.len(),
            last_error(acks@) == last_error(acks@.take(i as int)),
        decreases i,
    {
        proof {
            assert(acks@.take(i as int).drop_last() =~= acks@.take(i as int - 1));
            assert(acks@.take(i as int).last() == acks@[i as int - 1]);
        }
        match acks[i - 1].1 {
            Err(e) => {
                return e;
            },
            Ok(_) => {},
        }
        i -= 1;
    }
    Error::NoSuchData
}

fn has_acked(acks: &Vec<Ack>, n: &XorName) -> (r: bool)
    ensures
        r == acked(acks@, *n),
{
    let mut i: usize = 0;
    while i < acks.len()
        invariant
            i <= acks@.len(),
            forall|j: int| 0 <= j < i ==> acks@[j].0 != *n,
        decreases acks@.len() - i,
    {
        if acks[i].0 == *n {
            return true;
        }
        i += 1;
    }
    false
}

/// The operation still waits for the answer of `sender`.
pub open spec fn awaits(op: ChunkOp, sender: XorName) -> bool {
    op.holders@.contains(sender) && !acked(op.acks@, sender)
}

/// How a write or delete on `n` holders stands after the answers `acks`:
/// settled with success once a quorum has succeeded, settled with the latest
/// error once every holder has answered, and open until then.
pub open spec fn settled(acks: Seq<Ack>, n: nat) -> Option<Result<(), Error>> {
    if successes(acks) >= quorum(n) {
        Some(Ok(()))
    } else if acks.len() >= n {
        Some(Err(last_error(acks)))
    } else {
        None
    }
}

/// The failure that a read counts for an answer that is no good: the error
/// that came, or `AddressMismatch` for a chunk that is not the one asked for.
pub open spec fn read_failure(
    address: ChunkAddress,
    result: Result<Chunk, Error>,
) -> Option<Error> {
    match result {
        Ok(c) => if c.address == address && well_addressed(c) {
            None
        } else {
            Some(Error::AddressMismatch)
        },
        Err(e) => Some(e),
    }
}

/// The identifier of the repair of the chunk at `address` after the loss of
/// `lost`: every elder derives the same one.
pub open spec fn duplication_id(address: ChunkAddress, lost: XorName) -> MessageId {
    MessageId(name_from_bytes(sha3_256(name_bytes(address.name) + name_bytes(lost))))
}

/// Computes the identifier of a repair.
pub fn duplication_id_of(address: &ChunkAddress, lost: &XorName) -> (id: MessageId)
    ensures
        id == duplication_id(*address, *lost),
{
    let mut input: Vec<u8> = Vec::new();
    encode_name(&mut input, &address.name);
    encode_name(&mut input, lost);
    proof {
        assert(input@ =~= name_bytes(address.name) + name_bytes(*lost));
    }
    let d = digest(input.as_slice());
    MessageId(decode_name(&d))
}

/// `action` is the order to `op.new_holder` to take a copy of the chunk from
/// `holders`.
pub open spec fn orders_copy(
    action: Action,
    sender: XorName,
    op: DuplicationOp,
    holders: Seq<XorName>,
) -> bool {
    action matches Action::SendMessage {
        sender: s,
        targets: t,
        rpc: Rpc::Duplicate { address: a, holders: h, message_id: m },
    } && s == sender && t@ == seq![op.new_holder] && a == op.address && h@ == holders && m
        == op.message_id
}

/// Whether the new holder has the copy after its report: it stored the
/// chunk, or it had it already.
pub open spec fn copy_is_there(result: Result<(), Error>) -> bool {
    result is Ok || result == Err::<(), Error>(Error::AlreadyExists)
}

/// A node in its role as elder answering for chunks.
pub struct IDataHandler {
    pub id: XorName,
    pub adults: Vec<XorName>,
    pub index: HolderIndex,
    pub ops: Vec<ChunkOp>,
    pub duplications: Vec<DuplicationOp>,
}

impl IDataHandler {
    /// At most one operation and one repair is in flight under a message
    /// identifier, and an operation in flight still waits for a holder.
    pub open spec fn wf(&self) -> bool {
        &&& self.index.wf()
        &&& forall|i: int, j: int|
            0 <= i < j < self.ops@.len() ==> self.ops@[i].message_id != self.ops@[j].message_id
        &&& forall|i: int|
            0 <= i < self.ops@.len() ==> (#[trigger] self.ops@[i]).acks@.len()
                < self.ops@[i].holders@.len()
        &&& forall|i: int, j: int|
            0 <= i < j < self.duplications@.len() ==> self.duplications@[i].message_id
                != self.duplications@[j].message_id
    }

    /// An operation is in flight under `id`.
    pub open spec fn live(&self, id: MessageId) -> bool {
        exists|i: int| 0 <= i < self.ops@.len() && self.ops@[i].message_id == id
    }

    /// A repair is in flight under `id`.
    pub open spec fn repairing(&self, id: MessageId) -> bool {
        exists|i: int| 0 <= i < self.duplications@.len() && self.duplications@[i].message_id == id
    }

    /// `after` records the same holders.
    pub open spec fn same_index(&self, after: &IDataHandler) -> bool {
        forall|a: ChunkAddress, n: XorName| after.index.holds(a, n) == self.index.holds(a, n)
    }

    /// `after` is the same elder with the same adults and the same repairs.
    pub open spec fn same_section(&self, after: &IDataHandler) -> bool {
        &&& after.id == self.id
        &&& after.adults@ == self.adults@
        &&& after.duplications@ == self.duplications@
    }

    /// Nothing changed.
    pub open spec fn unchanged(&self, after: &IDataHandler) -> bool {
        &&& self.same_section(after)
        &&& self.same_index(after)
        &&& after.ops@ == self.ops@
    }

    /// `after` has one more operation in flight, the last one listed: of the
    /// given kind, on `holders`, with no answer yet.
    pub open spec fn began(
        &self,
        after: &IDataHandler,
        op_type: OpType,
        address: ChunkAddress,
        requester: PublicId,
        message_id: MessageId,
        holders: Seq<XorName>,
    ) -> bool {
        &&& self.same_section(after)
        &&& self.same_index(after)
        &&& after.ops@.len() == self.ops@.len() + 1
        &&& after.ops@.take(self.ops@.len() as int) == self.ops@
        &&& after.ops@.last().message_id == message_id
        &&& after.ops@.last().op_type == op_type
        &&& after.ops@.last().address == address
        &&& after.ops@.last().requester == requester
        &&& after.ops@.last().holders@ == holders
        &&& after.ops@.last().acks@.len() == 0
    }

    /// `after` differs in one thing: the operation at position `i` has the
    /// answers `acks`.
    pub open spec fn noted(&self, after: &IDataHandler, i: int, acks: Seq<Ack>) -> bool {
        &&& self.same_section(after)
        &&& self.same_index(after)
        &&& after.ops@.len() == self.ops@.len()
        &&& forall|j: int| 0 <= j < self.ops@.len() && j != i ==> after.ops@[j] == self.ops@[j]
        &&& after.ops@[i].message_id == self.ops@[i].message_id
        &&& after.ops@[i].op_type == self.ops@[i].op_type
        &&& after.ops@[i].address == self.ops@[i].address
        &&& after.ops@[i].requester == self.ops@[i].requester
        &&& after.ops@[i].holders@ == self.ops@[i].holders@
        &&& after.ops@[i].acks@ == acks
    }

    /// `after` differs in one thing: the operation at position `i` is gone.
    pub open spec fn closed(&self, after: &IDataHandler, i: int) -> bool {
        &&& self.same_section(after)
        &&& after.ops@ == self.ops@.remove(i)
    }

    /// The position of the write or delete under `id` that waits for
    /// `sender`, where there is one.
    pub open spec fn waiting_write(&self, id: MessageId, sender: XorName, i: int) -> bool {
        &&& 0 <= i < self.ops@.len()
        &&& self.ops@[i].message_id == id
        &&& self.ops@[i].op_type != OpType::Get
        &&& awaits(self.ops@[i], sender)
    }

    /// The position of the read under `id` that is asking `sender`, where
    /// there is one.
    pub open spec fn waiting_read(&self, id: MessageId, sender: XorName, i: int) -> bool {
        &&& 0 <= i < self.ops@.len()
        &&& self.ops@[i].message_id == id
        &&& self.ops@[i].op_type == OpType::Get
        &&& self.ops@[i].holders@[self.ops@[i].acks@.len() as int] == sender
    }

    /// The holders of the chunk at `a` that are adults of the section now.
    pub open spec fn live_holders(&self, a: ChunkAddress) -> Set<XorName> {
        Set::new(|n: XorName| self.index.holds(a, n) && self.adults@.contains(n))
    }

    /// An elder named `id` that knows the given adults and no chunk.
    pub fn new(id: XorName, adults: Vec<XorName>) -> (h: IDataHandler)
        ensures
            h.wf(),
            h.id == id,
            h.adults@ == adults@,
            h.ops@.len() == 0,
            h.duplications@.len() == 0,
            forall|a: ChunkAddress, n: XorName| !h.index.holds(a, n),
    {
        IDataHandler {
            id,
            adults,
            index: HolderIndex::new(),
            ops: Vec::new(),
            duplications: Vec::new(),
        }
    }

    /// Takes note of the adults that the section has now.
    pub fn set_adults(&mut self, adults: Vec<XorName>)
        requires
            old(self).wf(),
        ensures
            final(self).wf(),
            final(self).adults@ == adults@,
            final(self).id == old(self).id,
            final(self).ops@ == old(self).ops@,
            final(self).duplications@ == old(self).duplications@,
            old(self).same_index(final(self)),
    {
        self.adults = adults;
    }

    /// Takes the holders on record from the pairs that were kept on disk,
    /// as after a restart: the index records those pairs and no other.
    pub fn restore_index(&mut self, pairs: &Vec<(ChunkAddress, XorName)>)
        requires
            old(self).wf(),
        ensures
            final(self).wf(),
            forall|a: ChunkAddress, n: XorName|
                final(self).index.holds(a, n) <==> pairs@.contains((a, n)),
            final(self).id == old(self).id,
            final(self).adults@ == old(self).adults@,
            final(self).ops@ == old(self).ops@,
            final(self).duplications@ == old(self).duplications@,
    {
        self.index = HolderIndex::from_pairs(pairs);
    }

    fn find_op(&self, id: &MessageId) -> (r: Option<usize>)
        ensures
            r is Some <==> self.live(*id),
            r matches Some(i) ==> i < self.ops@.len() && self.ops@[i as int].message_id == *id,
    {
        let mut i: usize = 0;
        while i < self.ops.len()
            invariant
                i <= self.ops@.len(),
                forall|j: int| 0 <= j < i ==> self.ops@[j].message_id != *id,
            decreases self.ops@.len() - i,
        {
            if self.ops[i].message_id == *id {
                return Some(i);
            }
            i += 1;
        }
        None
    }

    fn tell_client(
        sender: XorName,
        requester: PublicId,
        message_id: MessageId,
        response: Response,
    ) -> (r: Option<Action>)
        ensures
            tells_client(r, sender, requester, message_id, response),
    {
        Some(
            Action::RespondToClientHandlers {
                sender,
                rpc: Rpc::Response { response, requester, message_id, request_proof: None },
            },
        )
    }

    fn begin(
        &mut self,
        op_type: OpType,
        address: ChunkAddress,
        requester: PublicId,
        message_id: MessageId,
        holders: Vec<XorName>,
    )
        requires
            old(self).wf(),
            !old(self).live(message_id),
            holders@.len() > 0,
        ensures
            final(self).wf(),
            old(self).began(final(self), op_type, address, requester, message_id, holders@),
    {
        let op = ChunkOp { message_id, op_type, address, requester, holders, acks: Vec::new() };
        self.ops.push(op);
        proof {
            assert(final(self).ops@.take(old(self).ops@.len() as int) =~= old(self).ops@);
        }
    }

    /// What a write request does to the elder, and what the elder sends.
    pub open spec fn handle_put_idata_req_post(
        &self,
        after: &Self,
        requester: PublicId,
        data: Chunk,
        message_id: MessageId,
        r: Option<Action>,
    ) -> bool {
        &&& after.wf()
        &&& self.live(message_id) ==> r is None && self.unchanged(after)
        &&& !self.live(message_id) ==> exists|targets: Seq<XorName>| #[trigger]
            is_closest(
                data.address.name,
                self.adults@.to_set(),
                REPLICATION_FACTOR as nat,
                targets,
            ) && if targets.len() == 0 {
                &&& self.unchanged(after)
                &&& tells_client(
                    r,
                    data.address.name,
                    requester,
                    message_id,
                    Response::Mutation(Err(Error::NoSuchData)),
                )
            } else {
                &&& self.began(
                    after,
                    OpType::Put,
                    data.address,
                    requester,
                    message_id,
                    targets,
                )
                &&& sends(
                    r,
                    self.id,
                    targets,
                    requester,
                    message_id,
                    IDataRequest::Put(data),
                )
            }
    }

    /// A client's write: picks the closest adults as holders, opens the
    /// operation and sends the chunk to them. A second request under a
    /// message identifier that is in flight is dropped. With no adult to
    /// hold the chunk the client is told `NoSuchData`.
    pub fn handle_put_idata_req(
        &mut self,
        requester: PublicId,
        data: Chunk,
        message_id: MessageId,
    ) -> (r: Option<Action>)
        requires
            old(self).wf(),
        ensures
            final(self).wf(),
            old(self).handle_put_idata_req_post(final(self), requester, data, message_id, r),
    {
        if self.find_op(&message_id).is_some() {
            return None;
        }
        let targets = closest_k(&data.address.name, &self.adults, REPLICATION_FACTOR);
        if targets.len() == 0 {
            return Self::tell_client(
                data.address.name,
                requester,
                message_id,
                Response::Mutation(Err(Error::NoSuchData)),
            );
        }
        let to = crate::messages::copy_names(&targets);
        self.begin(OpType::Put, data.address, requester, message_id, targets);
        Some(
            Action::SendMessage {
                sender: self.id,
                targets: to,
                rpc: Rpc::Request {
                    request: Request::IData(IDataRequest::Put(data)),
                    requester,
                    message_id,
                },
            },
        )
    }

    fn live_holders_of(&self, address: &ChunkAddress) -> (r: Vec<XorName>)
        requires
            self.wf(),
        ensures
            forall|n: XorName| r@.contains(n) <==> self.live_holders(*address).contains(n),
    {
        let all = self.index.holders(address);
        let mut r: Vec<XorName> = Vec::new();
        let mut i: usize = 0;
        while i < all.len()
            invariant
                i <= all@.len(),
                forall|n: XorName|
                    r@.contains(n) <==> self.adults@.contains(n) && exists|j: int|
                        0 <= j < i && all@[j] == n,
            decreases all@.len() - i,
        {
            let n = all[i];
            let ghost r0 = r@;
            if contains_name(&self.adults, &n) {
                r.push(n);
                proof {
                    assert(r@[r0.len() as int] == n);
                    assert forall|x: XorName|
                        r@.contains(x) <==> self.adults@.contains(x) && exists|j: int|
                            0 <= j < i + 1 && all@[j] == x by {
                        if r@.contains(x) {
                            let k = choose|k: int| 0 <= k < r@.len() && r@[k] == x;
                            if k < r0.len() {
                                assert(r0[k] == x);
                                assert(r0.contains(x));
                            } else {
                                assert(all@[i as int] == x);
                            }
                        }
                        if self.adults@.contains(x) && exists|j: int|
                            0 <= j < i + 1 && all@[j] == x {
                            let j = choose|j: int| 0 <= j < i + 1 && all@[j] == x;
                            if j < i {
                                assert(r0.contains(x));
                                let k = choose|k: int| 0 <= k < r0.len() && r0[k] == x;
                                assert(r@[k] == x);
                            }
                        }
                    }
                }
            } else {
                proof {
                    assert forall|x: XorName|
                        r@.contains(x) <==> self.adults@.contains(x) && exists|j: int|
                            0 <= j < i + 1 && all@[j] == x by {
                        if self.adults@.contains(x) && exists|j: int|
                            0 <= j < i + 1 && all@[j] == x {
                            let j = choose|j: int| 0 <= j < i + 1 && all@[j] == x;
                            assert(j < i);
                        }
                    }
                }
            }
            i += 1;
        }
        proof {
            assert forall|n: XorName| r@.contains(n) <==> self.live_holders(*address).contains(
                n,
            ) by {
                if self.live_holders(*address).contains(n) {
                    assert(all@.contains(n));
                }
                if r@.contains(n) {
                    let j = choose|j: int| 0 <= j < all@.len() && all@[j] == n;
                    assert(all@.contains(n));
                }
            }
        }
        r
    }

    /// What a read request does to the elder, and what the elder sends.
    pub open spec fn handle_get_idata_req_post(
        &self,
        after: &Self,
        requester: PublicId,
        address: ChunkAddress,
        message_id: MessageId,
        r: Option<Action>,
    ) -> bool {
        &&& after.wf()
        &&& self.live(message_id) ==> r is None && self.unchanged(after)
        &&& !self.live(message_id) ==> exists|holders: Seq<XorName>| #[trigger]
            lists_by_distance(address.name, self.live_holders(address), holders)
                && if holders.len() == 0 {
                &&& self.unchanged(after)
                &&& tells_client(
                    r,
                    address.name,
                    requester,
                    message_id,
                    Response::GetIData(Err(Error::NoSuchData)),
                )
            } else {
                &&& self.began(
                    after,
                    OpType::Get,
                    address,
                    requester,
                    message_id,
                    holders,
                )
                &&& sends(
                    r,
                    self.id,
                    seq![holders[0]],
                    requester,
                    message_id,
                    IDataRequest::Get(address),
                )
            }
    }

    /// A client's read: asks the closest holder that is an adult now and
    /// opens the operation on all such holders, closest first. With no such
    /// holder the client is told `NoSuchData`.
    pub fn handle_get_idata_req(
        &mut self,
        requester: PublicId,
        address: ChunkAddress,
        message_id: MessageId,
    ) -> (r: Option<Action>)
        requires
            old(self).wf(),
        ensures
            final(self).wf(),
            old(self).handle_get_idata_req_post(final(self), requester, address, message_id, r),
    {
        if self.find_op(&message_id).is_some() {
            return None;
        }
        let live = self.live_holders_of(&address);
        let holders = sort_by_distance(&address.name, &live);
        proof {
            assert(live@.to_set() =~= self.live_holders(address));
        }
        if holders.len() == 0 {
            return Self::tell_client(
                address.name,
                requester,
                message_id,
                Response::GetIData(Err(Error::NoSuchData)),
            );
        }
        let mut to: Vec<XorName> = Vec::new();
        to.push(holders[0]);
        proof {
            assert(to@ =~= seq![holders@[0]]);
        }
        self.begin(OpType::Get, address, requester, message_id, holders);
        Some(
            Action::SendMessage {
                sender: self.id,
                targets: to,
                rpc: Rpc::Request {
                    request: Request::IData(IDataRequest::Get(address)),
                    requester,
                    message_id,
                },
            },
        )
    }

    /// What a delete request does to the elder, and what the elder sends.
    pub open spec fn handle_delete_unpub_idata_req_post(
        &self,
        after: &Self,
        requester: PublicId,
        address: ChunkAddress,
        message_id: MessageId,
        r: Option<Action>,
    ) -> bool {
        &&& after.wf()
        &&& self.live(message_id) ==> r is None && self.unchanged(after)
        &&& !self.live(message_id) && address.kind == ChunkKind::Public ==> self.unchanged(after) && tells_client(
            r,
            address.name,
            requester,
            message_id,
            Response::Mutation(Err(Error::InvalidOperation)),
        )
        &&& !self.live(message_id) && address.kind == ChunkKind::Private ==> exists|
            holders: Seq<XorName>,
        | #[trigger]
            holders.no_duplicates() && (forall|n: XorName|
                holders.contains(n) <==> self.index.holds(address, n)) && if holders.len()
                == 0 {
                &&& self.unchanged(after)
                &&& tells_client(
                    r,
                    address.name,
                    requester,
                    message_id,
                    Response::Mutation(Err(Error::NoSuchData)),
                )
            } else {
                &&& self.began(
                    after,
                    OpType::Delete,
                    address,
                    requester,
                    message_id,
                    holders,
                )
                &&& sends(
                    r,
                    self.id,
                    holders,
                    requester,
                    message_id,
                    IDataRequest::DeleteUnpub(address),
                )
            }
    }

    /// A client's delete of a private chunk: opens the operation on the
    /// holders of the chunk and sends the order to them. A public address is
    /// answered `InvalidOperation`, a chunk without holders `NoSuchData`.
    pub fn handle_delete_unpub_idata_req(
        &mut self,
        requester: PublicId,
        address: ChunkAddress,
        message_id: MessageId,
    ) -> (r: Option<Action>)
        requires
            old(self).wf(),
        ensures
            final(self).wf(),
            old(self).handle_delete_unpub_idata_req_post(final(self), requester, address, message_id, r),
    {
        if self.find_op(&message_id).is_some() {
            return None;
        }
        if address.kind == ChunkKind::Public {
            return Self::tell_client(
                address.name,
                requester,
                message_id,
                Response::Mutation(Err(Error::InvalidOperation)),
            );
        }
        let holders = self.index.holders(&address);
        if holders.len() == 0 {
            return Self::tell_client(
                address.name,
                requester,
                message_id,
                Response::Mutation(Err(Error::NoSuchData)),
            );
        }
        let to = crate::messages::copy_names(&holders);
        self.begin(OpType::Delete, address, requester, message_id, holders);
        Some(
            Action::SendMessage {
                sender: self.id,
                targets: to,
                rpc: Rpc::Request {
                    request: Request::IData(IDataRequest::DeleteUnpub(address)),
                    requester,
                    message_id,
                },
            },
        )
    }

    fn note(&mut self, i: usize, sender: XorName, result: Result<(), Error>)
        requires
            old(self).wf(),
            i < old(self).ops@.len(),
            old(self).ops@[i as int].acks@.len() + 1 < old(self).ops@[i as int].holders@.len(),
        ensures
            final(self).wf(),
            old(self).noted(final(self), i as int, old(self).ops@[i as int].acks@.push((sender, result))),
    {
        let mut op = self.ops.remove(i);
        op.acks.push((sender, result));
        self.ops.insert(i, op);
        proof {
            let before = old(self).ops@;
            let after = self.ops@;
            assert(after.len() == before.len());
            assert forall|j: int| 0 <= j < before.len() && j != i implies after[j] == before[j] by {
                if j < i {
                    assert(before.remove(i as int)[j] == before[j]);
                } else {
                    assert(before.remove(i as int)[j - 1] == before[j]);
                }
            }
        }
    }

    fn close(&mut self, i: usize) -> (op: ChunkOp)
        requires
            old(self).wf(),
            i < old(self).ops@.len(),
        ensures
            final(self).wf(),
            old(self).closed(final(self), i as int),
            old(self).same_index(final(self)),
            op == old(self).ops@[i as int],
    {
        let op = self.ops.remove(i);
        proof {
            let before = old(self).ops@;
            let after = self.ops@;
            assert(forall|j: int| 0 <= j < i ==> after[j] == before[j]);
            assert(forall|j: int| i <= j < after.len() ==> after[j] == before[j + 1]);
        }
        op
    }

    fn record(&mut self, address: ChunkAddress, acks: &Vec<Ack>)
        requires
            old(self).wf(),
        ensures
            final(self).wf(),
            old(self).same_section(final(self)),
            final(self).ops@ == old(self).ops@,
            forall|a: ChunkAddress, x: XorName|
                final(self).index.holds(a, x) <==> old(self).index.holds(a, x) || (a == address
                    && acked_ok(acks@, x)),
    {
        let mut k: usize = 0;
        while k < acks.len()
            invariant
                k <= acks@.len(),
                self.wf(),
                old(self).same_section(self),
                self.ops@ == old(self).ops@,
                forall|a: ChunkAddress, x: XorName|
                    self.index.holds(a, x) <==> old(self).index.holds(a, x) || (a == address
                        && acked_ok(acks@.take(k as int), x)),
            decreases acks@.len() - k,
        {
            let ghost seen = acks@.take(k as int);
            let ghost next = acks@.take(k as int + 1);
            proof {
                assert(next =~= seen.push(acks@[k as int]));
                assert forall|x: XorName|
                    acked_ok(next, x) <==> acked_ok(seen, x) || (x == acks@[k as int].0
                        && acks@[k as int].1 is Ok) by {
                    if acked_ok(next, x) {
                        let j = choose|j: int|
                            0 <= j < next.len() && next[j].0 == x && next[j].1 is Ok;
                        if j < seen.len() {
                            assert(seen[j].0 == x && seen[j].1 is Ok);
                        }
                    }
                    if acked_ok(seen, x) {
                        let j = choose|j: int|
                            0 <= j < seen.len() && seen[j].0 == x && seen[j].1 is Ok;
                        assert(next[j].0 == x && next[j].1 is Ok);
                    }
                    if x == acks@[k as int].0 && acks@[k as int].1 is Ok {
                        assert(next[k as int].0 == x && next[k as int].1 is Ok);
                    }
                }
            }
            match acks[k].1 {
                Ok(_) => {
                    self.index.insert(address, acks[k].0);
                },
                Err(_) => {},
            }
            k += 1;
        }
        proof {
            assert(acks@.take(acks@.len() as int) =~= acks@);
        }
    }

    /// What the answer to a write or delete does to the elder, and what the elder sends.
    pub open spec fn handle_mutation_resp_post(
        &self,
        after: &Self,
        sender: XorName,
        result: Result<(), Error>,
        message_id: MessageId,
        r: Option<Action>,
    ) -> bool {
        &&& after.wf()
        &&& (forall|i: int| !self.waiting_write(message_id, sender, i)) ==> r is None && self.unchanged(after)
        &&& forall|i: int| #[trigger]
            self.waiting_write(message_id, sender, i) ==> {
                let op = self.ops@[i];
                let acks = op.acks@.push((sender, result));
                match settled(acks, op.holders@.len()) {
                    Some(Ok(_)) => {
                        &&& self.closed(after, i)
                        &&& tells_client(
                            r,
                            op.address.name,
                            op.requester,
                            message_id,
                            Response::Mutation(Ok(())),
                        )
                        &&& forall|a: ChunkAddress, x: XorName|
                            after.index.holds(a, x) <==> if op.op_type == OpType::Put {
                                self.index.holds(a, x) || (a == op.address && acked_ok(
                                    acks,
                                    x,
                                ))
                            } else {
                                self.index.holds(a, x) && a != op.address
                            }
                    },
                    Some(Err(e)) => {
                        &&& self.closed(after, i)
                        &&& self.same_index(after)
                        &&& tells_client(
                            r,
                            op.address.name,
                            op.requester,
                            message_id,
                            Response::Mutation(Err(e)),
                        )
                    },
                    None => r is None && self.noted(after, i, acks),
                }
            }
    }

    /// A holder's answer to a write or delete. An answer that no operation
    /// waits for is dropped. Otherwise it is counted, and once the operation
    /// is settled it is closed and the client is told. On success a write
    /// records the holders that succeeded, and a delete strikes every holder
    /// of the chunk: the order to delete went to all of them, and none is
    /// to be asked for the chunk again.
    pub fn handle_mutation_resp(
        &mut self,
        sender: XorName,
        result: Result<(), Error>,
        message_id: MessageId,
    ) -> (r: Option<Action>)
        requires
            old(self).wf(),
        ensures
            final(self).wf(),
            old(self).handle_mutation_resp_post(final(self), sender, result, message_id, r),
    {
        let i = match self.find_op(&message_id) {
            Some(i) => i,
            None => {
                return None;
            },
        };
        if self.ops[i].op_type == OpType::Get || !contains_name(&self.ops[i].holders, &sender)
            || has_acked(&self.ops[i].acks, &sender) {
            return None;
        }
        proof {
            assert(old(self).waiting_write(message_id, sender, i as int));
        }
        let n = self.ops[i].holders.len();
        let mut op = self.close(i);
        op.acks.push((sender, result));
        let ghost acks = op.acks@;
        proof {
            assert(acks.drop_last() =~= old(self).ops@[i as int].acks@);
        }
        let ok = count_ok(&op.acks);
        if ok >= quorum_of(n) {
            if op.op_type == OpType::Put {
                self.record(op.address, &op.acks);
            } else {
                self.index.remove_address(op.address);
            }
            Self::tell_client(
                op.address.name,
                op.requester,
                message_id,
                Response::Mutation(Ok(())),
            )
        } else if op.acks.len() >= n {
            let e = latest_error(&op.acks);
            Self::tell_client(op.address.name, op.requester, message_id, Response::Mutation(Err(e)))
        } else {
            self.ops.insert(i, op);
            proof {
                let before = old(self).ops@;
                let after = self.ops@;
                assert forall|j: int| 0 <= j < before.len() && j != i implies after[j]
                    == before[j] by {
                    if j < i {
                        assert(before.remove(i as int)[j] == before[j]);
                    } else {
                        assert(before.remove(i as int)[j - 1] == before[j]);
                    }
                }
            }
            None
        }
    }

    /// What the answer to a read does to the elder, and what the elder sends.
    pub open spec fn handle_get_idata_resp_post(
        &self,
        after: &Self,
        sender: XorName,
        result: Result<Chunk, Error>,
        message_id: MessageId,
        r: Option<Action>,
    ) -> bool {
        &&& after.wf()
        &&& (forall|i: int| !self.waiting_read(message_id, sender, i)) ==> r is None && self.unchanged(after)
        &&& forall|i: int| #[trigger]
            self.waiting_read(message_id, sender, i) ==> {
                let op = self.ops@[i];
                match read_failure(op.address, result) {
                    None => {
                        &&& self.closed(after, i)
                        &&& self.same_index(after)
                        &&& tells_client(
                            r,
                            op.address.name,
                            op.requester,
                            message_id,
                            Response::GetIData(result),
                        )
                    },
                    Some(e) => {
                        let acks = op.acks@.push((sender, Err(e)));
                        if acks.len() >= op.holders@.len() {
                            &&& self.closed(after, i)
                            &&& self.same_index(after)
                            &&& tells_client(
                                r,
                                op.address.name,
                                op.requester,
                                message_id,
                                Response::GetIData(Err(Error::NoSuchData)),
                            )
                        } else {
                            &&& self.noted(after, i, acks)
                            &&& sends(
                                r,
                                self.id,
                                seq![op.holders@[acks.len() as int]],
                                op.requester,
                                message_id,
                                IDataRequest::Get(op.address),
                            )
                        }
                    },
                }
            }
    }

    /// A holder's answer to a read. An answer that no read is waiting for is
    /// dropped. The chunk asked for is passed on to the client and the
    /// operation closed. On any other answer the next holder is asked, and
    /// when none is left the client is told `NoSuchData`.
    pub fn handle_get_idata_resp(
        &mut self,
        sender: XorName,
        result: Result<Chunk, Error>,
        message_id: MessageId,
    ) -> (r: Option<Action>)
        requires
            old(self).wf(),
        ensures
            final(self).wf(),
            old(self).handle_get_idata_resp_post(final(self), sender, result, message_id, r),
    {
        let i = match self.find_op(&message_id) {
            Some(i) => i,
            None => {
                return None;
            },
        };
        if self.ops[i].op_type != OpType::Get {
            return None;
        }
        let asked = self.ops[i].acks.len();
        if self.ops[i].holders[asked] != sender {
            return None;
        }
        proof {
            assert(old(self).waiting_read(message_id, sender, i as int));
            assert(self.ops@[i as int].acks@.len() < self.ops@[i as int].holders@.len());
        }
        let n = self.ops[i].holders.len();
        let address = self.ops[i].address;
        let requester = self.ops[i].requester;
        let failure = match &result {
            Ok(c) => if c.address == address && check_address(c) {
                None
            } else {
                Some(Error::AddressMismatch)
            },
            Err(e) => Some(*e),
        };
        match failure {
            None => {
                let _ = self.close(i);
                Self::tell_client(address.name, requester, message_id, Response::GetIData(result))
            },
            Some(e) => {
                if asked + 1 >= n {
                    let _ = self.close(i);
                    Self::tell_client(
                        address.name,
                        requester,
                        message_id,
                        Response::GetIData(Err(Error::NoSuchData)),
                    )
                } else {
                    let next = self.ops[i].holders[asked + 1];
                    self.note(i, sender, Err(e));
                    let mut to: Vec<XorName> = Vec::new();
                    to.push(next);
                    proof {
                        assert(to@ =~= seq![next]);
                    }
                    Some(
                        Action::SendMessage {
                            sender: self.id,
                            targets: to,
                            rpc: Rpc::Request {
                                request: Request::IData(IDataRequest::Get(address)),
                                requester,
                                message_id,
                            },
                        },
                    )
                }
            },
        }
    }

    /// What giving up an operation does: the operation under `message_id`
    /// is dropped, so that an answer that comes late finds nothing, and
    /// everything else stays. The answer tells whether there was one.
    pub open spec fn cancel_post(&self, after: &Self, message_id: MessageId, r: bool) -> bool {
        &&& after.wf()
        &&& self.same_section(after)
        &&& self.same_index(after)
        &&& r == self.live(message_id)
        &&& !after.live(message_id)
        &&& forall|i: int|
            0 <= i < self.ops@.len() && self.ops@[i].message_id == message_id ==> after.ops@
                == self.ops@.remove(i)
        &&& !r ==> after.ops@ == self.ops@
    }

    /// Gives up the operation under `message_id`, as when its time has run
    /// out.
    pub fn cancel(&mut self, message_id: MessageId) -> (r: bool)
        requires
            old(self).wf(),
        ensures
            old(self).cancel_post(final(self), message_id, r),
    {
        match self.find_op(&message_id) {
            Some(i) => {
                let _ = self.close(i);
                proof {
                    let before = old(self).ops@;
                    let after = self.ops@;
                    if self.live(message_id) {
                        let k = choose|k: int|
                            0 <= k < after.len() && after[k].message_id == message_id;
                        if k < i {
                            assert(before[k].message_id == message_id);
                        } else {
                            assert(before[k + 1].message_id == message_id);
                        }
                    }
                }
                true
            },
            None => false,
        }
    }

    /// What the running out of time does to a read: it counts as a failure
    /// of the holder that is being asked, so that the next holder is asked
    /// or the client is told `NoSuchData`. Where no read is in flight under
    /// the identifier nothing happens.
    pub open spec fn handle_get_timeout_post(
        &self,
        after: &Self,
        message_id: MessageId,
        r: Option<Action>,
    ) -> bool {
        &&& after.wf()
        &&& (forall|i: int| !self.reading(message_id, i)) ==> r is None && self.unchanged(after)
        &&& forall|i: int| #[trigger]
            self.reading(message_id, i) ==> self.handle_get_idata_resp_post(
                after,
                self.ops@[i].holders@[self.ops@[i].acks@.len() as int],
                Err(Error::NoSuchData),
                message_id,
                r,
            )
    }

    /// The position of the read under `id`, where there is one.
    pub open spec fn reading(&self, id: MessageId, i: int) -> bool {
        &&& 0 <= i < self.ops@.len()
        &&& self.ops@[i].message_id == id
        &&& self.ops@[i].op_type == OpType::Get
    }

    /// The holder that a read was waiting for did not answer in time.
    pub fn handle_get_timeout(&mut self, message_id: MessageId) -> (r: Option<Action>)
        requires
            old(self).wf(),
        ensures
            old(self).handle_get_timeout_post(final(self), message_id, r),
    {
        let i = match self.find_op(&message_id) {
            Some(i) => i,
            None => {
                return None;
            },
        };
        if self.ops[i].op_type != OpType::Get {
            proof {
                assert forall|j: int| !self.reading(message_id, j) by {
                    if self.reading(message_id, j) {
                        assert(j == i);
                    }
                }
            }
            return None;
        }
        proof {
            assert(self.ops@[i as int].acks@.len() < self.ops@[i as int].holders@.len());
            assert(self.reading(message_id, i as int));
            assert forall|j: int| #[trigger] self.reading(message_id, j) implies j == i by {}
        }
        let asked = self.ops[i].holders[self.ops[i].acks.len()];
        self.handle_get_idata_resp(asked, Err(Error::NoSuchData), message_id)
    }

    /// The adults that can take a copy of the chunk at `a` when `lost` is
    /// gone: those that do not hold it yet.
    pub open spec fn eligible(&self, a: ChunkAddress, lost: XorName) -> Set<XorName> {
        Set::new(|n: XorName| self.adults@.contains(n) && n != lost && !self.index.holds(a, n))
    }

    /// `op` repairs the loss of `lost` at a chunk that `lost` held, under the
    /// identifier that the two give, with the closest eligible adult as the
    /// new holder.
    pub open spec fn repairs(&self, op: DuplicationOp, lost: XorName) -> bool {
        &&& op.lost == lost
        &&& self.index.holds(op.address, lost)
        &&& op.message_id == duplication_id(op.address, lost)
        &&& is_closest(op.address.name, self.eligible(op.address, lost), 1, seq![op.new_holder])
    }

    /// `action` is the order that goes with the repair `op` after the loss of
    /// `lost`: it names the holders that are left.
    pub open spec fn ordered(&self, action: Action, op: DuplicationOp, lost: XorName) -> bool {
        &&& self.repairs(op, lost)
        &&& exists|h: Seq<XorName>|
            self.remaining(op.address, lost, h) && #[trigger] orders_copy(action, self.id, op, h)
    }

    /// The holders of the chunk at `a` other than `lost`, each once.
    pub open spec fn remaining(&self, a: ChunkAddress, lost: XorName, h: Seq<XorName>) -> bool {
        &&& h.no_duplicates()
        &&& forall|n: XorName| h.contains(n) <==> self.index.holds(a, n) && n != lost
    }

    fn find_repair(&self, id: &MessageId) -> (r: Option<usize>)
        ensures
            r is Some <==> self.repairing(*id),
            r matches Some(i) ==> i < self.duplications@.len() && self.duplications@[i as int].message_id
                == *id,
    {
        let mut i: usize = 0;
        while i < self.duplications.len()
            invariant
                i <= self.duplications@.len(),
                forall|j: int| 0 <= j < i ==> self.duplications@[j].message_id != *id,
            decreases self.duplications@.len() - i,
        {
            if self.duplications[i].message_id == *id {
                return Some(i);
            }
            i += 1;
        }
        None
    }

    fn holders_without(&self, address: &ChunkAddress, lost: &XorName) -> (h: Vec<XorName>)
        requires
            self.wf(),
        ensures
            self.remaining(*address, *lost, h@),
    {
        let all = self.index.holders(address);
        let mut h: Vec<XorName> = Vec::new();
        let mut i: usize = 0;
        while i < all.len()
            invariant
                i <= all@.len(),
                all@.no_duplicates(),
                forall|k: int| 0 <= k < h@.len() ==> exists|j: int|
                    0 <= j < i && all@[j] == #[trigger] h@[k],
                h@.no_duplicates(),
                forall|j: int| 0 <= j < i && all@[j] != *lost ==> h@.contains(#[trigger] all@[j]),
                forall|k: int| 0 <= k < h@.len() ==> #[trigger] h@[k] != *lost,
            decreases all@.len() - i,
        {
            let n = all[i];
            if n != *lost {
                let ghost h0 = h@;
                h.push(n);
                proof {
                    assert(h@[h0.len() as int] == n);
                    assert forall|k: int| 0 <= k < h@.len() implies exists|j: int|
                        0 <= j < i + 1 && all@[j] == #[trigger] h@[k] by {
                        if k < h0.len() {
                            let j = choose|j: int| 0 <= j < i && all@[j] == h0[k];
                            assert(all@[j] == h@[k]);
                        } else {
                            assert(all@[i as int] == h@[k]);
                        }
                    }
                    assert forall|a: int, b: int|
                        0 <= a < h@.len() && 0 <= b < h@.len() && a != b implies h@[a] != h@[b] by {
                        if a < h0.len() && b < h0.len() {
                            assert(h0[a] != h0[b]);
                        } else if a < h0.len() {
                            let j = choose|j: int| 0 <= j < i && all@[j] == h0[a];
                        } else {
                            let j = choose|j: int| 0 <= j < i && all@[j] == h0[b];
                        }
                    }
                    assert forall|j: int|
                        0 <= j < i + 1 && all@[j] != *lost implies h@.contains(
                        #[trigger] all@[j],
                    ) by {
                        if j < i {
                            let k = choose|k: int| 0 <= k < h0.len() && h0[k] == all@[j];
                            assert(h@[k] == all@[j]);
                        }
                    }
                }
            }
            i += 1;
        }
        proof {
            assert forall|n: XorName| h@.contains(n) <==> self.index.holds(*address, n) && n
                != *lost by {
                if h@.contains(n) {
                    let k = choose|k: int| 0 <= k < h@.len() && h@[k] == n;
                    let j = choose|j: int| 0 <= j < all@.len() && all@[j] == h@[k];
                    assert(all@.contains(n));
                }
                if self.index.holds(*address, n) && n != *lost {
                    assert(all@.contains(n));
                    let j = choose|j: int| 0 <= j < all@.len() && all@[j] == n;
                    assert(h@.contains(all@[j]));
                }
            }
        }
        h
    }

    fn eligible_adults(&self, address: &ChunkAddress, lost: &XorName) -> (r: Vec<XorName>)
        requires
            self.wf(),
        ensures
            r@.to_set() =~= self.eligible(*address, *lost),
    {
        let mut r: Vec<XorName> = Vec::new();
        let mut i: usize = 0;
        while i < self.adults.len()
            invariant
                i <= self.adults@.len(),
                forall|n: XorName|
                    r@.contains(n) <==> n != *lost && !self.index.holds(*address, n) && exists|
                        j: int,
                    | 0 <= j < i && self.adults@[j] == n,
            decreases self.adults@.len() - i,
        {
            let n = self.adults[i];
            let ghost r0 = r@;
            let take = n != *lost && !self.index.contains(address, &n);
            if take {
                r.push(n);
            }
            proof {
                if take {
                    assert(r@[r0.len() as int] == n);
                }
                assert forall|x: XorName|
                    r@.contains(x) <==> x != *lost && !self.index.holds(*address, x) && exists|
                        j: int,
                    | 0 <= j < i + 1 && self.adults@[j] == x by {
                    if r@.contains(x) {
                        let k = choose|k: int| 0 <= k < r@.len() && r@[k] == x;
                        if k < r0.len() {
                            assert(r0[k] == x);
                            assert(r0.contains(x));
                            let j = choose|j: int| 0 <= j < i && self.adults@[j] == x;
                            assert(0 <= j < i + 1 && self.adults@[j] == x);
                        } else {
                            assert(self.adults@[i as int] == x);
                        }
                    }
                    if x != *lost && !self.index.holds(*address, x) && exists|j: int|
                        0 <= j < i + 1 && self.adults@[j] == x {
                        let j = choose|j: int| 0 <= j < i + 1 && self.adults@[j] == x;
                        if j < i {
                            assert(r0.contains(x));
                            let k = choose|k: int| 0 <= k < r0.len() && r0[k] == x;
                            assert(r@[k] == x);
                        } else {
                            assert(r@[r0.len() as int] == x);
                        }
                    }
                }
            }
            i += 1;
        }
        proof {
            assert forall|n: XorName| r@.to_set().contains(n) <==> self.eligible(
                *address,
                *lost,
            ).contains(n) by {
                if self.eligible(*address, *lost).contains(n) {
                    let j = choose|j: int| 0 <= j < self.adults@.len() && self.adults@[j] == n;
                }
            }
        }
        r
    }

    /// Orders one copy of the chunk at `address`, which `lost` held: the
    /// closest eligible adult is told to fetch it from the holders that are
    /// left, and the repair is noted. Nothing is ordered while a repair
    /// under the same identifier is in flight, or when no adult is eligible.
    pub fn order_copy(&mut self, address: ChunkAddress, lost: XorName) -> (r: Option<Action>)
        requires
            old(self).wf(),
            old(self).index.holds(address, lost),
        ensures
            final(self).wf(),
            final(self).id == old(self).id,
            final(self).adults@ == old(self).adults@,
            final(self).ops@ == old(self).ops@,
            old(self).same_index(final(self)),
            r is None ==> final(self).duplications@ == old(self).duplications@ && (old(self).repairing(duplication_id(address, lost)) || forall|n: XorName|
                !old(self).eligible(address, lost).contains(n)),
            r matches Some(action) ==> exists|op: DuplicationOp, h: Seq<XorName>|
                {
                    &&& op.address == address
                    &&& old(self).repairs(op, lost)
                    &&& !old(self).repairing(op.message_id)
                    &&& final(self).duplications@ == old(self).duplications@.push(op)
                    &&& old(self).remaining(address, lost, h)
                    &&& #[trigger] orders_copy(action, old(self).id, op, h)
                },
    {
        let message_id = duplication_id_of(&address, &lost);
        if self.find_repair(&message_id).is_some() {
            return None;
        }
        let pool = self.eligible_adults(&address, &lost);
        let picks = closest_k(&address.name, &pool, 1);
        if picks.len() == 0 {
            proof {
                assert forall|n: XorName| !old(self).eligible(address, lost).contains(n) by {
                    if old(self).eligible(address, lost).contains(n) {
                        assert(pool@.to_set().contains(n));
                        assert(!picks@.contains(n));
                    }
                }
            }
            return None;
        }
        let new_holder = picks[0];
        let holders = self.holders_without(&address, &lost);
        let op = DuplicationOp { message_id, address, lost, new_holder };
        self.duplications.push(op);
        let mut to: Vec<XorName> = Vec::new();
        to.push(new_holder);
        let action = Action::SendMessage {
            sender: self.id,
            targets: to,
            rpc: Rpc::Duplicate { address, holders, message_id },
        };
        proof {
            assert(to@ =~= seq![new_holder]);
            assert(picks@ =~= seq![new_holder]);
            assert(orders_copy(action, old(self).id, op, holders@));
        }
        Some(action)
    }

    /// What the loss of a holder does to the elder, and what the elder orders.
    pub open spec fn trigger_data_copy_process_post(
        &self,
        after: &Self,
        node: XorName,
        r: Option<Vec<Action>>,
    ) -> bool {
        &&& after.wf()
        &&& after.id == self.id
        &&& after.ops@ == self.ops@
        &&& self.same_index(after)
        &&& forall|n: XorName|
            after.adults@.contains(n) <==> self.adults@.contains(n) && n != node
        &&& r is Some
        &&& after.duplications@.len() == self.duplications@.len() + r->Some_0@.len()
        &&& after.duplications@.take(self.duplications@.len() as int) == self.duplications@
        &&& forall|j: int|
            0 <= j < r->Some_0@.len() ==> after.ordered(
                #[trigger] r->Some_0@[j],
                after.duplications@[self.duplications@.len() + j],
                node,
            )
        &&& forall|a: ChunkAddress|
            self.index.holds(a, node) ==> after.repairing(
                #[trigger] duplication_id(a, node),
            ) || forall|n: XorName| !after.eligible(a, node).contains(n)
    }

    /// A holder was lost: it is struck from the adults, and for every chunk
    /// that it held one copy is ordered. The orders come out in the order in
    /// which the repairs are noted.
    pub fn trigger_data_copy_process(&mut self, node: XorName) -> (r: Option<Vec<Action>>)
        requires
            old(self).wf(),
        ensures
            final(self).wf(),
            old(self).trigger_data_copy_process_post(final(self), node, r),
    {
        let mut left: Vec<XorName> = Vec::new();
        let mut i: usize = 0;
        while i < self.adults.len()
            invariant
                i <= self.adults@.len(),
                self.adults@ == old(self).adults@,
                forall|n: XorName|
                    left@.contains(n) <==> n != node && exists|j: int|
                        0 <= j < i && self.adults@[j] == n,
            decreases self.adults@.len() - i,
        {
            let n = self.adults[i];
            let ghost l0 = left@;
            if n != node {
                left.push(n);
            }
            proof {
                if n != node {
                    assert(left@[l0.len() as int] == n);
                }
                assert forall|x: XorName|
                    left@.contains(x) <==> x != node && exists|j: int|
                        0 <= j < i + 1 && self.adults@[j] == x by {
                    if left@.contains(x) {
                        let k = choose|k: int| 0 <= k < left@.len() && left@[k] == x;
                        if k < l0.len() {
                            assert(l0[k] == x);
                            assert(l0.contains(x));
                            let j = choose|j: int| 0 <= j < i && self.adults@[j] == x;
                            assert(0 <= j < i + 1 && self.adults@[j] == x);
                        } else {
                            assert(self.adults@[i as int] == x);
                        }
                    }
                    if x != node && exists|j: int| 0 <= j < i + 1 && self.adults@[j] == x {
                        let j = choose|j: int| 0 <= j < i + 1 && self.adults@[j] == x;
                        if j < i {
                            assert(l0.contains(x));
                            let k = choose|k: int| 0 <= k < l0.len() && l0[k] == x;
                            assert(left@[k] == x);
                        } else {
                            assert(left@[l0.len() as int] == x);
                        }
                    }
                }
            }
            i += 1;
        }
        proof {
            assert forall|n: XorName|
                left@.contains(n) <==> old(self).adults@.contains(n) && n != node by {
                if old(self).adults@.contains(n) && n != node {
                    let j = choose|j: int| 0 <= j < self.adults@.len() && self.adults@[j] == n;
                }
            }
        }
        self.adults = left;
        let ghost start = *self;
        let addresses = self.index.addresses_held_by(&node);
        let mut actions: Vec<Action> = Vec::new();
        let mut k: usize = 0;
        while k < addresses.len()
            invariant
                k <= addresses@.len(),
                self.wf(),
                self.id == start.id,
                self.adults@ == start.adults@,
                self.ops@ == start.ops@,
                start.same_index(self),
                forall|a: ChunkAddress| addresses@.contains(a) <==> start.index.holds(a, node),
                self.duplications@.len() == start.duplications@.len() + actions@.len(),
                self.duplications@.take(start.duplications@.len() as int) == start.duplications@,
                forall|j: int|
                    0 <= j < actions@.len() ==> start.ordered(
                        #[trigger] actions@[j],
                        self.duplications@[start.duplications@.len() + j],
                        node,
                    ),
                forall|m: int|
                    0 <= m < k ==> self.repairing(
                        #[trigger] duplication_id(addresses@[m], node),
                    ) || forall|n: XorName| !start.eligible(addresses@[m], node).contains(n),
            decreases addresses@.len() - k,
        {
            let a = addresses[k];
            let ghost prev = *self;
            let ghost prev_actions = actions@;
            proof {
                assert(addresses@.contains(a));
                assert(forall|x: ChunkAddress, n: XorName|
                    prev.eligible(x, n) =~= start.eligible(x, n));
            }
            match self.order_copy(a, node) {
                Some(action) => {
                    proof {
                        let (op, h) = choose|op: DuplicationOp, h: Seq<XorName>|
                            {
                                &&& op.address == a
                                &&& prev.repairs(op, node)
                                &&& !prev.repairing(op.message_id)
                                &&& self.duplications@ == prev.duplications@.push(op)
                                &&& prev.remaining(a, node, h)
                                &&& #[trigger] orders_copy(action, prev.id, op, h)
                            };
                        assert(self.duplications@[prev.duplications@.len() as int] == op);
                        assert(self.repairing(op.message_id));
                        assert(start.remaining(op.address, node, h));
                        assert(self.duplications@.take(start.duplications@.len() as int)
                            =~= prev.duplications@.take(start.duplications@.len() as int));
                    }
                    actions.push(action);
                    proof {
                        assert forall|j: int| 0 <= j < actions@.len() implies start.ordered(
                            #[trigger] actions@[j],
                            self.duplications@[start.duplications@.len() + j],
                            node,
                        ) by {
                            if j < prev_actions.len() {
                                assert(actions@[j] == prev_actions[j]);
                                assert(self.duplications@[start.duplications@.len() + j]
                                    == prev.duplications@[start.duplications@.len() + j]);
                                assert(start.ordered(
                                    prev_actions[j],
                                    prev.duplications@[start.duplications@.len() + j],
                                    node,
                                ));
                            }
                        }
                    }
                },
                None => {},
            }
            proof {
                assert forall|m: int| 0 <= m < k + 1 implies self.repairing(
                    #[trigger] duplication_id(addresses@[m], node),
                ) || forall|n: XorName| !start.eligible(addresses@[m], node).contains(n) by {
                    if m < k {
                        if prev.repairing(duplication_id(addresses@[m], node)) {
                            let q = choose|q: int|
                                0 <= q < prev.duplications@.len() && prev.duplications@[q].message_id
                                    == duplication_id(addresses@[m], node);
                            assert(self.duplications@[q] == prev.duplications@[q]);
                        }
                    }
                }
            }
            k += 1;
        }
        proof {
            assert(forall|x: ChunkAddress, n: XorName|
                self.eligible(x, n) =~= start.eligible(x, n));
            assert forall|a: ChunkAddress| old(self).index.holds(a, node) implies self.repairing(
                #[trigger] duplication_id(a, node),
            ) || forall|n: XorName| !self.eligible(a, node).contains(n) by {
                assert(start.index.holds(a, node));
                assert(addresses@.contains(a));
                let m = choose|m: int| 0 <= m < addresses@.len() && addresses@[m] == a;
                assert(self.repairing(duplication_id(addresses@[m], node)) || forall|n: XorName|
                    !start.eligible(addresses@[m], node).contains(n));
                if !self.repairing(duplication_id(a, node)) {
                    assert forall|n: XorName| !self.eligible(a, node).contains(n) by {
                        assert(!start.eligible(a, node).contains(n));
                    }
                }
            }
            assert forall|j: int| 0 <= j < actions@.len() implies self.ordered(
                #[trigger] actions@[j],
                self.duplications@[old(self).duplications@.len() + j],
                node,
            ) by {
                let op = self.duplications@[start.duplications@.len() + j];
                assert(start.ordered(actions@[j], op, node));
                let h = choose|h: Seq<XorName>|
                    start.remaining(op.address, node, h) && #[trigger] orders_copy(
                        actions@[j],
                        start.id,
                        op,
                        h,
                    );
                assert(self.remaining(op.address, node, h));
                assert(self.eligible(op.address, node) =~= start.eligible(op.address, node));
            }
        }
        Some(actions)
    }

    /// The position of the repair under `id` whose new holder is `sender`,
    /// where there is one.
    pub open spec fn waiting_repair(&self, id: MessageId, sender: XorName, i: int) -> bool {
        &&& 0 <= i < self.duplications@.len()
        &&& self.duplications@[i].message_id == id
        &&& self.duplications@[i].new_holder == sender
    }

    /// What the report on a copy does to the elder.
    pub open spec fn update_idata_holders_post(
        &self,
        after: &Self,
        sender: XorName,
        result: Result<(), Error>,
        message_id: MessageId,
        r: Option<Action>,
    ) -> bool {
        &&& after.wf()
        &&& r is None
        &&& after.id == self.id
        &&& after.adults@ == self.adults@
        &&& after.ops@ == self.ops@
        &&& (forall|i: int| !self.waiting_repair(message_id, sender, i)) ==> self.unchanged(after)
        &&& forall|i: int| #[trigger]
            self.waiting_repair(message_id, sender, i) ==> {
                let op = self.duplications@[i];
                &&& after.duplications@ == self.duplications@.remove(i)
                &&& forall|a: ChunkAddress, x: XorName|
                    after.index.holds(a, x) <==> (self.index.holds(a, x) && !(a
                        == op.address && x == op.lost)) || (copy_is_there(result) && a
                        == op.address && x == op.new_holder)
            }
    }

    /// The new holder reports on its copy: the repair is closed and the lost
    /// node is struck from the holders of the chunk, and where the copy is
    /// there the new holder joins them. A report that no repair waits for
    /// is dropped. Nothing is sent.
    pub fn update_idata_holders(
        &mut self,
        sender: XorName,
        result: Result<(), Error>,
        message_id: MessageId,
    ) -> (r: Option<Action>)
        requires
            old(self).wf(),
        ensures
            final(self).wf(),
            old(self).update_idata_holders_post(final(self), sender, result, message_id, r),
    {
        let i = match self.find_repair(&message_id) {
            Some(i) => i,
            None => {
                return None;
            },
        };
        if self.duplications[i].new_holder != sender {
            return None;
        }
        proof {
            assert(old(self).waiting_repair(message_id, sender, i as int));
        }
        let op = self.duplications.remove(i);
        proof {
            let before = old(self).duplications@;
            let after = self.duplications@;
            assert(forall|j: int| 0 <= j < i ==> after[j] == before[j]);
            assert(forall|j: int| i <= j < after.len() ==> after[j] == before[j + 1]);
        }
        self.index.remove(op.address, op.lost);
        let there = match result {
            Ok(_) => true,
            Err(Error::AlreadyExists) => true,
            Err(_) => false,
        };
        if there {
            self.index.insert(op.address, op.new_holder);
        }
        None
    }
}

/// A write or delete does not hang: the answer of the last holder that was
/// waited for closes the operation, and the client is told a success or a
/// failure.
pub proof fn lemma_last_answer_settles(
    before: IDataHandler,
    after: IDataHandler,
    sender: XorName,
    result: Result<(), Error>,
    message_id: MessageId,
    r: Option<Action>,
    i: int,
)
    requires
        before.handle_mutation_resp_post(&after, sender, result, message_id, r),
        before.waiting_write(message_id, sender, i),
        before.ops@[i].acks@.len() + 1 >= before.ops@[i].holders@.len(),
    ensures
        before.closed(&after, i),
        !after.live(message_id) || exists|j: int|
            0 <= j < before.ops@.len() && j != i && before.ops@[j].message_id == message_id,
        exists|answer: Result<(), Error>| #[trigger]
            tells_client(
                r,
                before.ops@[i].address.name,
                before.ops@[i].requester,
                message_id,
                Response::Mutation(answer),
            ),
{
    let op = before.ops@[i];
    let acks = op.acks@.push((sender, result));
    match settled(acks, op.holders@.len()) {
        Some(answer) => {
            assert(tells_client(
                r,
                op.address.name,
                op.requester,
                message_id,
                Response::Mutation(answer),
            ));
        },
        None => {},
    }
    if after.live(message_id) {
        let k = choose|k: int| 0 <= k < after.ops@.len() && after.ops@[k].message_id == message_id;
        if k < i {
            assert(before.ops@[k].message_id == message_id);
        } else {
            assert(before.ops@[k + 1].message_id == message_id);
        }
    }
}

/// The chunk that a read passes on to the client is the chunk that was asked
/// for: it carries the address of the read, and its contents give that
/// address.
pub proof fn lemma_served_chunk_is_the_one_asked_for(
    before: IDataHandler,
    after: IDataHandler,
    sender: XorName,
    result: Result<Chunk, Error>,
    message_id: MessageId,
    r: Option<Action>,
    i: int,
    served: Chunk,
)
    requires
        before.handle_get_idata_resp_post(&after, sender, result, message_id, r),
        before.waiting_read(message_id, sender, i),
        tells_client(
            r,
            before.ops@[i].address.name,
            before.ops@[i].requester,
            message_id,
            Response::GetIData(Ok(served)),
        ),
    ensures
        served.address == before.ops@[i].address,
        well_addressed(served),
        result matches Ok(c) && c.same(served),
{
}

/// A delete that succeeds removes: once the delete of a chunk has settled
/// with success the operation is closed, nobody holds the chunk, and the
/// holders of every other chunk are who they were.
pub proof fn lemma_delete_leaves_no_holder(
    before: IDataHandler,
    after: IDataHandler,
    sender: XorName,
    result: Result<(), Error>,
    message_id: MessageId,
    r: Option<Action>,
    i: int,
)
    requires
        before.handle_mutation_resp_post(&after, sender, result, message_id, r),
        before.waiting_write(message_id, sender, i),
        before.ops@[i].op_type == OpType::Delete,
        tells_client(
            r,
            before.ops@[i].address.name,
            before.ops@[i].requester,
            message_id,
            Response::Mutation(Ok(())),
        ),
    ensures
        before.closed(&after, i),
        forall|x: XorName| !after.index.holds(before.ops@[i].address, x),
        forall|a: ChunkAddress, x: XorName|
            a != before.ops@[i].address ==> after.index.holds(a, x) == before.index.holds(a, x),
{
}

} // verus!
