//! The dispatcher of chunk traffic. The same request means one thing when a
//! client sent it and another when a section sent it: from a client it asks
//! this node, as an elder, to find holders; from a section it asks this node,
//! as a holder, to serve from its own store.

use crate::chunk_store::ChunkData;
use crate::handler::{acked, acked_ok, IDataHandler};
use crate::holder::{answers, IDataHolder};
use crate::messages::{
    Action, Chunk, ChunkAddress, Error, IDataRequest, MessageId, PublicId, Request, Response, Rpc,
    SrcLocation,
};
use crate::name::{lists_by_name, sort_by_name, XorName};
use vstd::prelude::*;

verus! {

/// Whether a chunk request is for this node as a holder. A write or a delete
/// is when a section sent it; a read is when a section sent it or when the
/// requester is itself a node.
pub open spec fn for_holder(src: SrcLocation, requester: PublicId, request: IDataRequest) -> bool {
    match request {
        IDataRequest::Put(_) => src.is_section(),
        IDataRequest::Get(_) => src.is_section() || requester.is_node(),
        IDataRequest::DeleteUnpub(_) => src.is_section(),
    }
}

/// `r` sends the read that fetches a copy: from `sender`, in its own name as
/// a node, to the nodes that `holders` names, each once and in the order of
/// their names.
pub open spec fn fetches_copy(
    r: Option<Action>,
    sender: XorName,
    address: ChunkAddress,
    holders: Seq<XorName>,
    message_id: MessageId,
) -> bool {
    r matches Some(
        Action::SendMessage {
            sender: s,
            targets: t,
            rpc: Rpc::Request {
                request: Request::IData(IDataRequest::Get(a)),
                requester: PublicId::Node(n),
                message_id: m,
            },
        },
    ) && s == sender && n == sender && lists_by_name(holders.to_set(), t@) && a == address && m
        == message_id
}

/// `r` reports to the section what came of a copy.
pub open spec fn reports_copy(
    r: Option<Action>,
    sender: XorName,
    message_id: MessageId,
    result: Result<(), Error>,
) -> bool {
    r matches Some(
        Action::RespondToOurDataHandlers {
            sender: s,
            rpc: Rpc::DuplicationComplete { response: Response::Mutation(given), message_id: m },
        },
    ) && s == sender && m == message_id && given == result
}

/// The data side of a node: always a holder, and an elder's handler where
/// the node is an elder.
pub struct DataHandler {
    pub id: XorName,
    pub idata_holder: IDataHolder,
    pub idata_handler: Option<IDataHandler>,
    pub idata_duplicate_op: Vec<MessageId>,
}

impl DataHandler {
    /// The parts are well formed, and no copy is noted twice.
    pub open spec fn wf(&self) -> bool {
        &&& self.idata_holder.chunks.wf()
        &&& self.idata_holder.id == self.id
        &&& (self.idata_handler matches Some(h) ==> h.wf() && h.id == self.id)
        &&& self.idata_duplicate_op@.no_duplicates()
    }

    /// The node is an elder.
    pub open spec fn is_elder(&self) -> bool {
        self.idata_handler is Some
    }

    /// A copy is being fetched under `id`.
    pub open spec fn copying(&self, id: MessageId) -> bool {
        self.idata_duplicate_op@.contains(id)
    }

    /// The holder's part did not change.
    pub open spec fn same_holder(&self, after: &DataHandler) -> bool {
        after.id == self.id && after.idata_holder == self.idata_holder
    }

    /// The elder's part did not change.
    pub open spec fn same_elder(&self, after: &DataHandler) -> bool {
        after.id == self.id && after.idata_handler == self.idata_handler
    }

    /// The copies being fetched did not change.
    pub open spec fn same_copies(&self, after: &DataHandler) -> bool {
        after.idata_duplicate_op@ == self.idata_duplicate_op@
    }

    /// Nothing changed.
    pub open spec fn unchanged(&self, after: &DataHandler) -> bool {
        self.same_holder(after) && self.same_elder(after) && self.same_copies(after)
    }

    /// A data handler named `id` with an empty store of the given quota; as
    /// an elder it knows the given adults.
    pub fn new(id: XorName, max_capacity: u64, is_elder: bool, adults: Vec<XorName>) -> (d:
        DataHandler)
        ensures
            d.wf(),
            d.id == id,
            d.is_elder() == is_elder,
            d.idata_holder.chunks.capacity() == max_capacity,
            d.idata_holder.chunks.used_space() == 0,
            forall|a: ChunkAddress| !d.idata_holder.chunks.has(a),
            d.idata_duplicate_op@.len() == 0,
            d.idata_handler matches Some(h) ==> h.adults@ == adults@ && h.ops@.len() == 0
                && h.duplications@.len() == 0 && forall|a: ChunkAddress, n: XorName|
                !h.index.holds(a, n),
    {
        let idata_holder = IDataHolder::new(id, max_capacity);
        let idata_handler = if is_elder {
            Some(IDataHandler::new(id, adults))
        } else {
            None
        };
        DataHandler { id, idata_holder, idata_handler, idata_duplicate_op: Vec::new() }
    }

    /// What `handle_vault_rpc` does with an envelope: each kind goes to the
    /// function that serves it.
    pub open spec fn handle_vault_rpc_post(
        &self,
        after: &DataHandler,
        src: SrcLocation,
        rpc: Rpc,
        r: Option<Action>,
    ) -> bool {
        match rpc {
            Rpc::Request { request, requester, message_id } => self.handle_request_post(
                after,
                src,
                requester,
                request,
                message_id,
                r,
            ),
            Rpc::Response { response, requester, message_id, request_proof } => self.handle_response_post(
                after,
                src,
                response,
                message_id,
                r,
            ),
            Rpc::Duplicate { address, holders, message_id } => self.handle_duplicate_request_post(
                after,
                address,
                holders@,
                message_id,
                r,
            ),
            Rpc::DuplicationComplete { response, message_id } => self.complete_duplication_post(
                after,
                src,
                response,
                message_id,
                r,
            ),
        }
    }

    /// Serves one envelope of the inbound channel.
    pub fn handle_vault_rpc(&mut self, src: SrcLocation, rpc: Rpc) -> (r: Option<Action>)
        requires
            old(self).wf(),
        ensures
            final(self).wf(),
            old(self).handle_vault_rpc_post(final(self), src, rpc, r),
    {
        match rpc {
            Rpc::Request { request, requester, message_id } => self.handle_request(
                src,
                requester,
                request,
                message_id,
            ),
            Rpc::Response { response, message_id, .. } => self.handle_response(
                src,
                response,
                message_id,
            ),
            Rpc::Duplicate { address, holders, message_id } => self.handle_duplicate_request(
                address,
                holders,
                message_id,
            ),
            Rpc::DuplicationComplete { response, message_id } => self.complete_duplication(
                src,
                response,
                message_id,
            ),
        }
    }

    /// What the report on a copy does: a `Mutation` goes to the elder's
    /// handler, anything else is dropped, and a node that is no elder drops
    /// all of it.
    pub open spec fn complete_duplication_post(
        &self,
        after: &DataHandler,
        sender: SrcLocation,
        response: Response,
        message_id: MessageId,
        r: Option<Action>,
    ) -> bool {
        &&& self.same_holder(after)
        &&& self.same_copies(after)
        &&& match (response, self.idata_handler) {
            (Response::Mutation(result), Some(h)) => after.idata_handler matches Some(h2)
                && h.update_idata_holders_post(&h2, sender.name(), result, message_id, r),
            _ => r is None && self.same_elder(after),
        }
    }

    /// Takes the report of a new holder on its copy.
    pub fn complete_duplication(
        &mut self,
        sender: SrcLocation,
        response: Response,
        message_id: MessageId,
    ) -> (r: Option<Action>)
        requires
            old(self).wf(),
        ensures
            final(self).wf(),
            old(self).complete_duplication_post(final(self), sender, response, message_id, r),
    {
        match response {
            Response::Mutation(result) => match &mut self.idata_handler {
                Some(h) => h.update_idata_holders(sender.name(), result, message_id),
                None => None,
            },
            _ => None,
        }
    }

    /// What an order to take a copy does: the first order under a message
    /// identifier is noted and answered with one read sent to the holders,
    /// each of them named once;
    /// an order under an identifier that is noted changes nothing and sends
    /// nothing.
    pub open spec fn handle_duplicate_request_post(
        &self,
        after: &DataHandler,
        address: ChunkAddress,
        holders: Seq<XorName>,
        message_id: MessageId,
        r: Option<Action>,
    ) -> bool {
        &&& self.same_holder(after)
        &&& self.same_elder(after)
        &&& if self.copying(message_id) {
            r is None && self.same_copies(after)
        } else {
            &&& after.idata_duplicate_op@ == self.idata_duplicate_op@.push(message_id)
            &&& fetches_copy(r, self.id, address, holders, message_id)
        }
    }

    /// Takes an order to hold a copy of a chunk.
    pub fn handle_duplicate_request(
        &mut self,
        address: ChunkAddress,
        holders: Vec<XorName>,
        message_id: MessageId,
    ) -> (r: Option<Action>)
        requires
            old(self).wf(),
        ensures
            final(self).wf(),
            old(self).handle_duplicate_request_post(final(self), address, holders@, message_id, r),
    {
        if self.is_copying(&message_id) {
            return None;
        }
        self.idata_duplicate_op.push(message_id);
        proof {
            let before = old(self).idata_duplicate_op@;
            let after = self.idata_duplicate_op@;
            assert forall|i: int, j: int|
                0 <= i < after.len() && 0 <= j < after.len() && i != j implies after[i]
                != after[j] by {
                if i < before.len() && j < before.len() {
                    assert(before[i] != before[j]);
                } else if i < before.len() {
                    assert(before.contains(before[i]));
                } else {
                    assert(before.contains(before[j]));
                }
            }
        }
        Some(
            Action::SendMessage {
                sender: self.id,
                targets: sort_by_name(&holders),
                rpc: Rpc::Request {
                    request: Request::IData(IDataRequest::Get(address)),
                    requester: PublicId::Node(self.id),
                    message_id,
                },
            },
        )
    }

    fn is_copying(&self, id: &MessageId) -> (r: bool)
        ensures
            r == self.copying(*id),
    {
        let mut i: usize = 0;
        while i < self.idata_duplicate_op.len()
            invariant
                i <= self.idata_duplicate_op@.len(),
                forall|j: int| 0 <= j < i ==> self.idata_duplicate_op@[j] != *id,
            decreases self.idata_duplicate_op@.len() - i,
        {
            if self.idata_duplicate_op[i] == *id {
                return true;
            }
            i += 1;
        }
        false
    }

    /// Stops waiting for the copy under `id`, as when its time has run out:
    /// an order under the identifier is taken again from then on.
    pub fn forget_copy(&mut self, id: &MessageId)
        requires
            old(self).wf(),
        ensures
            final(self).wf(),
            old(self).same_holder(final(self)),
            old(self).same_elder(final(self)),
            forall|m: MessageId| final(self).copying(m) <==> old(self).copying(m) && m != *id,
    {
        let ghost before = self.idata_duplicate_op@;
        let mut i: usize = 0;
        while i < self.idata_duplicate_op.len()
            invariant
                old(self).wf(),
                *self == *old(self),
                before == self.idata_duplicate_op@,
                i <= self.idata_duplicate_op@.len(),
                forall|j: int| 0 <= j < i ==> self.idata_duplicate_op@[j] != *id,
            decreases self.idata_duplicate_op@.len() - i,
        {
            if self.idata_duplicate_op[i] == *id {
                let _ = self.idata_duplicate_op.remove(i);
                proof {
                    let after = self.idata_duplicate_op@;
                    assert(forall|j: int| 0 <= j < i ==> after[j] == before[j]);
                    assert(forall|j: int| i <= j < after.len() ==> after[j] == before[j + 1]);
                    assert forall|m: MessageId| self.copying(m) <==> old(self).copying(m) && m
                        != *id by {
                        if self.copying(m) {
                            let k = choose|k: int| 0 <= k < after.len() && after[k] == m;
                            if k < i {
                                assert(before[k] == m);
                            } else {
                                assert(before[k + 1] == m);
                            }
                        }
                        if old(self).copying(m) && m != *id {
                            let k = choose|k: int| 0 <= k < before.len() && before[k] == m;
                            if k < i {
                                assert(after[k] == m);
                            } else {
                                assert(after[k - 1] == m);
                            }
                        }
                    }
                }
                return ;
            }
            i += 1;
        }
    }

    /// What a request does. A chunk request for this node as a holder is
    /// served from its own store; any other chunk request goes to the
    /// elder's handler. Mutable-data and append-only-data requests are handed
    /// on by an elder. A node that is no elder drops what is meant for one,
    /// and every node drops the kinds that are no data requests.
    pub open spec fn handle_request_post(
        &self,
        after: &DataHandler,
        src: SrcLocation,
        requester: PublicId,
        request: Request,
        message_id: MessageId,
        r: Option<Action>,
    ) -> bool {
        &&& self.same_copies(after)
        &&& match request {
            Request::IData(q) => if for_holder(src, requester, q) {
                &&& self.same_elder(after)
                &&& match q {
                    IDataRequest::Put(data) => self.idata_holder.store_idata_post(
                        &after.idata_holder,
                        src,
                        data,
                        requester,
                        message_id,
                        r,
                    ),
                    IDataRequest::Get(address) => self.same_holder(after)
                        && self.idata_holder.get_idata_post(
                        src,
                        address,
                        requester,
                        message_id,
                        r,
                    ),
                    IDataRequest::DeleteUnpub(address) => self.idata_holder.delete_unpub_idata_post(
                        &after.idata_holder,
                        address,
                        requester,
                        message_id,
                        r,
                    ),
                }
            } else {
                &&& self.same_holder(after)
                &&& match self.idata_handler {
                    None => r is None && self.same_elder(after),
                    Some(h) => after.idata_handler matches Some(h2) && match q {
                        IDataRequest::Put(data) => h.handle_put_idata_req_post(
                            &h2,
                            requester,
                            data,
                            message_id,
                            r,
                        ),
                        IDataRequest::Get(address) => h.handle_get_idata_req_post(
                            &h2,
                            requester,
                            address,
                            message_id,
                            r,
                        ),
                        IDataRequest::DeleteUnpub(address) => h.handle_delete_unpub_idata_req_post(
                            &h2,
                            requester,
                            address,
                            message_id,
                            r,
                        ),
                    },
                }
            },
            Request::MData(payload) => self.unchanged(after) && if self.is_elder() {
                r matches Some(Action::HandleMData { requester: q, payload: p, message_id: m })
                    && q == requester && p@ == payload@ && m == message_id
            } else {
                r is None
            },
            Request::AData(payload) => self.unchanged(after) && if self.is_elder() {
                r matches Some(Action::HandleAData { requester: q, payload: p, message_id: m })
                    && q == requester && p@ == payload@ && m == message_id
            } else {
                r is None
            },
            _ => self.unchanged(after) && r is None,
        }
    }

    /// Serves a request.
    pub fn handle_request(
        &mut self,
        src: SrcLocation,
        requester: PublicId,
        request: Request,
        message_id: MessageId,
    ) -> (r: Option<Action>)
        requires
            old(self).wf(),
        ensures
            final(self).wf(),
            old(self).handle_request_post(final(self), src, requester, request, message_id, r),
    {
        match request {
            Request::IData(idata_req) => match idata_req {
                IDataRequest::Put(data) => {
                    if src.is_section() {
                        self.idata_holder.store_idata(src, &data, requester, message_id)
                    } else {
                        match &mut self.idata_handler {
                            Some(h) => h.handle_put_idata_req(requester, data, message_id),
                            None => None,
                        }
                    }
                },
                IDataRequest::Get(address) => {
                    if src.is_section() || requester.is_node() {
                        self.idata_holder.get_idata(src, address, requester, message_id)
                    } else {
                        match &mut self.idata_handler {
                            Some(h) => h.handle_get_idata_req(requester, address, message_id),
                            None => None,
                        }
                    }
                },
                IDataRequest::DeleteUnpub(address) => {
                    if src.is_section() {
                        self.idata_holder.delete_unpub_idata(address, requester, message_id)
                    } else {
                        match &mut self.idata_handler {
                            Some(h) => h.handle_delete_unpub_idata_req(
                                requester,
                                address,
                                message_id,
                            ),
                            None => None,
                        }
                    }
                },
            },
            Request::MData(payload) => {
                if self.idata_handler.is_some() {
                    Some(Action::HandleMData { requester, payload, message_id })
                } else {
                    None
                }
            },
            Request::AData(payload) => {
                if self.idata_handler.is_some() {
                    Some(Action::HandleAData { requester, payload, message_id })
                } else {
                    None
                }
            },
            Request::Coins(_) | Request::LoginPacket(_) | Request::Client(_) | Request::Node(_) => None,
        }
    }

    /// What a response does. A `Mutation` goes to the elder's handler. A
    /// `GetIData` under an identifier that a copy is being fetched under is
    /// the copy: on success it is stored, the identifier is struck, and the
    /// section is told what the store said; on failure nothing happens. Any
    /// other `GetIData` goes to the elder's handler. Every other response is
    /// dropped.
    pub open spec fn handle_response_post(
        &self,
        after: &DataHandler,
        src: SrcLocation,
        response: Response,
        message_id: MessageId,
        r: Option<Action>,
    ) -> bool {
        match response {
            Response::Mutation(result) => {
                &&& self.same_holder(after)
                &&& self.same_copies(after)
                &&& match self.idata_handler {
                    None => r is None && self.same_elder(after),
                    Some(h) => after.idata_handler matches Some(h2) && h.handle_mutation_resp_post(
                        &h2,
                        src.name(),
                        result,
                        message_id,
                        r,
                    ),
                }
            },
            Response::GetIData(result) => if self.copying(message_id) {
                match result {
                    Ok(data) => {
                        &&& self.same_elder(after)
                        &&& forall|m: MessageId|
                            after.copying(m) <==> self.copying(m) && m != message_id
                        &&& after.idata_holder.id == self.id
                        &&& after.idata_holder.chunks.capacity()
                            == self.idata_holder.chunks.capacity()
                        &&& reports_copy(
                            r,
                            self.id,
                            message_id,
                            self.idata_holder.chunks.put_outcome(data),
                        )
                        &&& self.idata_holder.chunks.put_outcome(data) is Ok
                            ==> self.idata_holder.chunks.stored(data, &after.idata_holder.chunks)
                        &&& self.idata_holder.chunks.put_outcome(data) is Err
                            ==> self.idata_holder.chunks.unchanged(&after.idata_holder.chunks)
                    },
                    Err(_) => r is None && self.unchanged(after),
                }
            } else {
                &&& self.same_holder(after)
                &&& self.same_copies(after)
                &&& match self.idata_handler {
                    None => r is None && self.same_elder(after),
                    Some(h) => after.idata_handler matches Some(h2) && h.handle_get_idata_resp_post(
                        &h2,
                        src.name(),
                        result,
                        message_id,
                        r,
                    ),
                }
            },
            _ => r is None && self.unchanged(after),
        }
    }

    /// Serves a response.
    pub fn handle_response(&mut self, src: SrcLocation, response: Response, message_id: MessageId) -> (r:
        Option<Action>)
        requires
            old(self).wf(),
        ensures
            final(self).wf(),
            old(self).handle_response_post(final(self), src, response, message_id, r),
    {
        match response {
            Response::Mutation(result) => match &mut self.idata_handler {
                Some(h) => h.handle_mutation_resp(src.name(), result, message_id),
                None => None,
            },
            Response::GetIData(result) => {
                if self.is_copying(&message_id) {
                    match result {
                        Ok(data) => {
                            self.forget_copy(&message_id);
                            let stored = self.idata_holder.chunks.put(data);
                            Some(
                                Action::RespondToOurDataHandlers {
                                    sender: self.id,
                                    rpc: Rpc::DuplicationComplete {
                                        response: Response::Mutation(stored),
                                        message_id,
                                    },
                                },
                            )
                        },
                        Err(_) => None,
                    }
                } else {
                    match &mut self.idata_handler {
                        Some(h) => h.handle_get_idata_resp(src.name(), result, message_id),
                        None => None,
                    }
                }
            },
            _ => None,
        }
    }

    /// What the loss of a node does: an elder orders the copies, any other
    /// node does nothing.
    pub open spec fn trigger_chunk_duplication_post(
        &self,
        after: &DataHandler,
        node: XorName,
        r: Option<Vec<Action>>,
    ) -> bool {
        &&& self.same_holder(after)
        &&& self.same_copies(after)
        &&& match self.idata_handler {
            None => r is None && self.same_elder(after),
            Some(h) => after.idata_handler matches Some(h2) && h.trigger_data_copy_process_post(
                &h2,
                node,
                r,
            ),
        }
    }

    /// A node left the section: where this node is an elder, every chunk
    /// that the lost node held gets a new holder ordered for it.
    pub fn trigger_chunk_duplication(&mut self, node: XorName) -> (r: Option<Vec<Action>>)
        requires
            old(self).wf(),
        ensures
            final(self).wf(),
            old(self).trigger_chunk_duplication_post(final(self), node, r),
    {
        match &mut self.idata_handler {
            Some(h) => h.trigger_data_copy_process(node),
            None => None,
        }
    }
}

/// While a copy is being fetched under a message identifier, a second order
/// under it sends nothing and changes nothing: one order, one read.
pub proof fn lemma_repeated_order_sends_nothing(
    first: DataHandler,
    second: DataHandler,
    third: DataHandler,
    address: ChunkAddress,
    holders: Seq<XorName>,
    message_id: MessageId,
    r1: Option<Action>,
    r2: Option<Action>,
)
    requires
        first.handle_duplicate_request_post(&second, address, holders, message_id, r1),
        second.handle_duplicate_request_post(&third, address, holders, message_id, r2),
    ensures
        r2 is None,
        second.unchanged(&third),
        second.copying(message_id),
{
    if !first.copying(message_id) {
        assert(second.idata_duplicate_op@[first.idata_duplicate_op@.len() as int] == message_id);
    }
}

/// Whom an elder newly records as a holder of a chunk has the chunk: where
/// a holder answered the order to store `data`, the elder took that answer
/// from it, and the elder has the holder on record for the address of `data`
/// afterwards though it had not before, the store of the holder keeps `data`
/// under that address.
pub proof fn lemma_a_recorded_holder_has_the_chunk(
    holder: IDataHolder,
    holder_after: IDataHolder,
    src: SrcLocation,
    data: Chunk,
    requester: PublicId,
    answer: Option<Action>,
    elder: IDataHandler,
    elder_after: IDataHandler,
    result: Result<(), Error>,
    message_id: MessageId,
    r: Option<Action>,
)
    requires
        holder.store_idata_post(&holder_after, src, data, requester, message_id, answer),
        answers(answer, holder.id, requester, message_id, Response::Mutation(result)),
        elder.handle_mutation_resp_post(&elder_after, holder.id, result, message_id, r),
        !elder.index.holds(data.address, holder.id),
        elder_after.index.holds(data.address, holder.id),
    ensures
        holder_after.chunks.has(data.address),
        holder_after.chunks.data(data.address) == (ChunkData {
            owner: data.owner,
            bytes: data.bytes@,
        }),
{
    let i = choose|i: int| elder.waiting_write(message_id, holder.id, i);
    assert(elder.waiting_write(message_id, holder.id, i));
    let op = elder.ops@[i];
    let acks = op.acks@.push((holder.id, result));
    assert(acked_ok(acks, holder.id));
    let k = choose|k: int| 0 <= k < acks.len() && acks[k].0 == holder.id && acks[k].1 is Ok;
    if k < op.acks@.len() {
        assert(op.acks@[k].0 == holder.id);
        assert(acked(op.acks@, holder.id));
    }
    assert(result is Ok);
}

/// The same of a repair: where a node that fetches a copy got `data`, the
/// elder took the report of the node on that copy, and the elder has the
/// node on record for the address of `data` afterwards though it had not
/// before, the store of the node keeps a chunk under that address.
pub proof fn lemma_a_recorded_copy_is_there(
    node: DataHandler,
    node_after: DataHandler,
    src: SrcLocation,
    data: Chunk,
    report: Option<Action>,
    elder: IDataHandler,
    elder_after: IDataHandler,
    result: Result<(), Error>,
    message_id: MessageId,
    r: Option<Action>,
)
    requires
        node.copying(message_id),
        node.handle_response_post(
            &node_after,
            src,
            Response::GetIData(Ok(data)),
            message_id,
            report,
        ),
        reports_copy(report, node.id, message_id, result),
        elder.update_idata_holders_post(&elder_after, node.id, result, message_id, r),
        !elder.index.holds(data.address, node.id),
        elder_after.index.holds(data.address, node.id),
    ensures
        node_after.idata_holder.chunks.has(data.address),
        result is Ok ==> node_after.idata_holder.chunks.data(data.address) == (ChunkData {
            owner: data.owner,
            bytes: data.bytes@,
        }),
{
    let i = choose|i: int| elder.waiting_repair(message_id, node.id, i);
    assert(elder.waiting_repair(message_id, node.id, i));
}

} // verus!
