//! The holder side of chunk storage: a node that keeps chunks on the order of
//! its section and answers the section with what came of each order.

use crate::chunk_store::ChunkStore;
use crate::messages::{
    Action, Chunk, ChunkAddress, Error, MessageId, PublicId, Response, Rpc, SrcLocation,
};
use crate::name::XorName;
use vstd::prelude::*;

verus! {

/// `r` is one answer to the section that gave the order: it comes from
/// `sender`, names the requester and the exchange, carries no proof, and
/// says `response`.
pub open spec fn answers(
    r: Option<Action>,
    sender: XorName,
    requester: PublicId,
    message_id: MessageId,
    response: Response,
) -> bool {
    r matches Some(
        Action::RespondToOurDataHandlers {
            sender: s,
            rpc: Rpc::Response { response: given, requester: q, message_id: m, request_proof },
        },
    ) && s == sender && q == requester && m == message_id && request_proof is None && given.same(response)
}

/// A node in its role as holder of chunks.
pub struct IDataHolder {
    pub id: XorName,
    pub chunks: ChunkStore,
}

impl IDataHolder {
    /// A holder named `id` with an empty store of the given quota.
    pub fn new(id: XorName, max_capacity: u64) -> (h: IDataHolder)
        ensures
            h.id == id,
            h.chunks.wf(),
            h.chunks.capacity() == max_capacity,
            h.chunks.used_space() == 0,
            forall|a: ChunkAddress| !h.chunks.has(a),
    {
        IDataHolder { id, chunks: ChunkStore::new(max_capacity) }
    }

    fn reply(&self, requester: PublicId, message_id: MessageId, response: Response) -> (r: Option<
        Action,
    >)
        ensures
            answers(r, self.id, requester, message_id, response),
    {
        Some(
            Action::RespondToOurDataHandlers {
                sender: self.id,
                rpc: Rpc::Response { response, requester, message_id, request_proof: None },
            },
        )
    }

    /// What storing a chunk does to the holder, and what it answers.
    pub open spec fn store_idata_post(
        &self,
        after: &Self,
        src: SrcLocation,
        data: Chunk,
        requester: PublicId,
        message_id: MessageId,
        r: Option<Action>,
    ) -> bool {
        &&& after.chunks.wf()
        &&& after.id == self.id
        &&& after.chunks.capacity() == self.chunks.capacity()
        &&& answers(
            r,
            self.id,
            requester,
            message_id,
            Response::Mutation(self.chunks.put_outcome(data)),
        )
        &&& self.chunks.put_outcome(data) is Ok ==> self.chunks.stored(
            data,
            &after.chunks,
        )
        &&& self.chunks.put_outcome(data) is Err ==> self.chunks.unchanged(
            &after.chunks,
        )
    }

    /// Stores a chunk and answers `Mutation` with what the store said.
    pub fn store_idata(
        &mut self,
        src: SrcLocation,
        data: &Chunk,
        requester: PublicId,
        message_id: MessageId,
    ) -> (r: Option<Action>)
        requires
            old(self).chunks.wf(),
        ensures
            final(self).chunks.wf(),
            old(self).store_idata_post(final(self), src, *data, requester, message_id, r),
    {
        let copy = data.duplicate();
        let result = self.chunks.put(copy);
        self.reply(requester, message_id, Response::Mutation(result))
    }

    /// What a read answers.
    pub open spec fn get_idata_post(
        &self,
        src: SrcLocation,
        address: ChunkAddress,
        requester: PublicId,
        message_id: MessageId,
        r: Option<Action>,
    ) -> bool {
        &&& exists|found: Result<Chunk, Error>| #[trigger]
            self.chunks.got(address, found) && answers(
                r,
                self.id,
                requester,
                message_id,
                Response::GetIData(found),
            )
    }

    /// Reads a chunk and answers `GetIData` with the chunk or `NoSuchData`.
    pub fn get_idata(
        &self,
        src: SrcLocation,
        address: ChunkAddress,
        requester: PublicId,
        message_id: MessageId,
    ) -> (r: Option<Action>)
        requires
            self.chunks.wf(),
        ensures
            self.get_idata_post(src, address, requester, message_id, r),
    {
        let found = self.chunks.get(&address);
        let ghost witness = found;
        let r = self.reply(requester, message_id, Response::GetIData(found));
        proof {
            assert(self.chunks.got(address, witness));
        }
        r
    }

    /// What deleting a chunk does to the holder, and what it answers.
    pub open spec fn delete_unpub_idata_post(
        &self,
        after: &Self,
        address: ChunkAddress,
        requester: PublicId,
        message_id: MessageId,
        r: Option<Action>,
    ) -> bool {
        &&& after.chunks.wf()
        &&& after.id == self.id
        &&& after.chunks.capacity() == self.chunks.capacity()
        &&& answers(
            r,
            self.id,
            requester,
            message_id,
            Response::Mutation(self.chunks.delete_outcome(address, requester.name())),
        )
        &&& self.chunks.delete_outcome(address, requester.name()) is Err ==> self.chunks.unchanged(&after.chunks)
        &&& self.chunks.delete_outcome(address, requester.name()) is Ok ==> self.chunks.deleted(
            address,
            &after.chunks,
        )
    }

    /// Deletes a private chunk for its owner and answers `Mutation` with what
    /// the store said. A delete that is done takes that chunk alone and gives
    /// its space back; one that is refused leaves the store as it was.
    pub fn delete_unpub_idata(
        &mut self,
        address: ChunkAddress,
        requester: PublicId,
        message_id: MessageId,
    ) -> (r: Option<Action>)
        requires
            old(self).chunks.wf(),
        ensures
            final(self).chunks.wf(),
            old(self).delete_unpub_idata_post(final(self), address, requester, message_id, r),
    {
        let owner = requester.name();
        let result = self.chunks.delete(&address, &owner);
        self.reply(requester, message_id, Response::Mutation(result))
    }
}

} // verus!
