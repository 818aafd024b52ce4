//! The data duties of an adult: it keeps chunks for its section and serves
//! only what the section has signed.

use crate::codec::{encode_request, request_encoding};
use crate::crypto::{bls_verifies, signature_verifies};
use crate::holder::IDataHolder;
use crate::messages::{
    Action, ChunkAddress, ChunkWrite, MessageId, NodeRequest, PublicId, PublicKey, Request,
    Response, Rpc, Signature, SrcLocation,
};
use crate::name::XorName;
use vstd::prelude::*;

verus! {

/// The section has signed `request`: a section key is known, a signature
/// came with the request, and it verifies over the bytes of the request.
pub open spec fn section_signed(
    key: Option<PublicKey>,
    request: Request,
    signature: Option<Signature>,
) -> bool {
    key matches Some(k) && signature matches Some(s) && bls_verifies(
        k@,
        s@,
        request_encoding(request),
    )
}

/// Whether an adult serves a request. What a section sends it serves when
/// the section has signed it. What a single node sends it serves only when
/// it is a read that a node asks for in its own name: the read by which a
/// new holder fetches its copy.
pub open spec fn authorised(
    key: Option<PublicKey>,
    src: SrcLocation,
    requester: PublicId,
    request: Request,
    signature: Option<Signature>,
) -> bool {
    match src {
        SrcLocation::Section(_) => section_signed(key, request, signature),
        SrcLocation::Node(_) => requester.is_node() && request matches Request::Node(
            NodeRequest::Read(_),
        ),
    }
}

/// An adult in its data duties.
pub struct Data {
    pub id: XorName,
    pub chunk_storage: IDataHolder,
    pub section_key: Option<PublicKey>,
}

impl Data {
    /// The store is well formed and carries the adult's name.
    pub open spec fn wf(&self) -> bool {
        self.chunk_storage.chunks.wf() && self.chunk_storage.id == self.id
    }

    /// Nothing changed.
    pub open spec fn unchanged(&self, after: &Data) -> bool {
        *after == *self
    }

    /// The name and the section key did not change.
    pub open spec fn same_identity(&self, after: &Data) -> bool {
        after.id == self.id && after.section_key == self.section_key
    }

    /// An adult named `id` with an empty store of the given quota, under the
    /// section key that the overlay reports.
    pub fn new(id: XorName, max_capacity: u64, section_key: Option<PublicKey>) -> (d: Data)
        ensures
            d.wf(),
            d.id == id,
            d.section_key == section_key,
            d.chunk_storage.chunks.capacity() == max_capacity,
            d.chunk_storage.chunks.used_space() == 0,
            forall|a: ChunkAddress| !d.chunk_storage.chunks.has(a),
    {
        Data { id, chunk_storage: IDataHolder::new(id, max_capacity), section_key }
    }

    /// Takes note of the section key that the overlay reports.
    pub fn set_section_key(&mut self, section_key: Option<PublicKey>)
        ensures
            final(self).id == old(self).id,
            final(self).chunk_storage == old(self).chunk_storage,
            final(self).section_key == section_key,
    {
        self.section_key = section_key;
    }

    /// The public key of the section, where the overlay has reported one.
    pub fn public_key(&self) -> (r: Option<PublicKey>)
        ensures
            r == self.section_key,
    {
        self.section_key
    }

    /// Verifies a section signature over the bytes of a request.
    pub fn validate_section_signature(&self, request: &Request, signature: &Signature) -> (r:
        Option<()>)
        ensures
            r is Some <==> section_signed(self.section_key, *request, Some(*signature)),
    {
        let key = self.public_key()?;
        let bytes = encode_request(request);
        if signature_verifies(&key, signature, bytes.as_slice()) {
            Some(())
        } else {
            None
        }
    }

    /// What `receive_msg` does with an envelope: a request and a response
    /// each go to the function that serves them, every other envelope is
    /// dropped.
    pub open spec fn receive_msg_post(
        &self,
        after: &Data,
        src: SrcLocation,
        msg: Rpc,
        accumulated_signature: Option<Signature>,
        r: Option<Action>,
    ) -> bool {
        match msg {
            Rpc::Request { request, requester, message_id } => self.handle_request_post(
                after,
                src,
                requester,
                request,
                message_id,
                accumulated_signature,
                r,
            ),
            Rpc::Response { response, requester, message_id, request_proof } => self.handle_response_post(
                after,
                src,
                response,
                requester,
                message_id,
                request_proof,
                r,
            ),
            _ => r is None && self.unchanged(after),
        }
    }

    /// Serves one envelope.
    pub fn receive_msg(
        &mut self,
        src: SrcLocation,
        msg: Rpc,
        accumulated_signature: Option<Signature>,
    ) -> (r: Option<Action>)
        requires
            old(self).wf(),
        ensures
            final(self).wf(),
            old(self).receive_msg_post(final(self), src, msg, accumulated_signature, r),
    {
        match msg {
            Rpc::Request { request, requester, message_id } => self.handle_request(
                src,
                requester,
                request,
                message_id,
                accumulated_signature,
            ),
            Rpc::Response { response, requester, message_id, request_proof } => self.handle_response(
                src,
                response,
                requester,
                message_id,
                request_proof,
            ),
            _ => None,
        }
    }

    /// What a request does. A request that is not authorised, and one that
    /// is no order of a section to a node, is dropped: nothing changes and
    /// nothing is sent. An authorised read, write or delete is served from
    /// the store and answered.
    pub open spec fn handle_request_post(
        &self,
        after: &Data,
        src: SrcLocation,
        requester: PublicId,
        request: Request,
        message_id: MessageId,
        accumulated_signature: Option<Signature>,
        r: Option<Action>,
    ) -> bool {
        &&& self.same_identity(after)
        &&& if !authorised(self.section_key, src, requester, request, accumulated_signature) {
            r is None && self.unchanged(after)
        } else {
            match request {
                Request::Node(NodeRequest::Read(address)) => self.unchanged(after)
                    && self.chunk_storage.get_idata_post(src, address, requester, message_id, r),
                Request::Node(NodeRequest::Write(ChunkWrite::New(data))) => self.chunk_storage.store_idata_post(
                    &after.chunk_storage,
                    src,
                    data,
                    requester,
                    message_id,
                    r,
                ),
                Request::Node(
                    NodeRequest::Write(ChunkWrite::DeletePrivate(address)),
                ) => self.chunk_storage.delete_unpub_idata_post(
                    &after.chunk_storage,
                    address,
                    requester,
                    message_id,
                    r,
                ),
                _ => r is None && self.unchanged(after),
            }
        }
    }

    fn is_authorised(
        &self,
        src: &SrcLocation,
        requester: &PublicId,
        request: &Request,
        signature: &Option<Signature>,
    ) -> (r: bool)
        ensures
            r == authorised(self.section_key, *src, *requester, *request, *signature),
    {
        match src {
            SrcLocation::Section(_) => match signature {
                Some(s) => self.validate_section_signature(request, s).is_some(),
                None => false,
            },
            SrcLocation::Node(_) => requester.is_node() && match request {
                Request::Node(NodeRequest::Read(_)) => true,
                _ => false,
            },
        }
    }

    /// Serves a request of the section.
    pub fn handle_request(
        &mut self,
        src: SrcLocation,
        requester: PublicId,
        request: Request,
        message_id: MessageId,
        accumulated_signature: Option<Signature>,
    ) -> (r: Option<Action>)
        requires
            old(self).wf(),
        ensures
            final(self).wf(),
            old(self).handle_request_post(
                final(self),
                src,
                requester,
                request,
                message_id,
                accumulated_signature,
                r,
            ),
    {
        if !self.is_authorised(&src, &requester, &request, &accumulated_signature) {
            return None;
        }
        match request {
            Request::Node(NodeRequest::Read(address)) => self.chunk_storage.get_idata(
                src,
                address,
                requester,
                message_id,
            ),
            Request::Node(NodeRequest::Write(ChunkWrite::New(data))) => self.chunk_storage.store_idata(
                src,
                &data,
                requester,
                message_id,
            ),
            Request::Node(
                NodeRequest::Write(ChunkWrite::DeletePrivate(address)),
            ) => self.chunk_storage.delete_unpub_idata(address, requester, message_id),
            _ => None,
        }
    }

    /// What a response does. Only the copy that this adult fetched in its
    /// own name is of use to it: a `GetIData` that succeeded, asked for by a
    /// node, with the proof of the request beside it. That chunk is stored
    /// and the store's word is the answer. A response without proof, one
    /// asked for by a client whose proof the section has not signed, and
    /// every other response is dropped.
    pub open spec fn handle_response_post(
        &self,
        after: &Data,
        src: SrcLocation,
        response: Response,
        requester: PublicId,
        message_id: MessageId,
        request_proof: Option<(Request, Signature)>,
        r: Option<Action>,
    ) -> bool {
        &&& self.same_identity(after)
        &&& match (request_proof, response) {
            (Some(_), Response::GetIData(Ok(data))) => if requester.is_node() {
                self.chunk_storage.store_idata_post(
                    &after.chunk_storage,
                    src,
                    data,
                    requester,
                    message_id,
                    r,
                )
            } else {
                r is None && self.unchanged(after)
            },
            _ => r is None && self.unchanged(after),
        }
    }

    /// Serves a response.
    pub fn handle_response(
        &mut self,
        src: SrcLocation,
        response: Response,
        requester: PublicId,
        message_id: MessageId,
        request_proof: Option<(Request, Signature)>,
    ) -> (r: Option<Action>)
        requires
            old(self).wf(),
        ensures
            final(self).wf(),
            old(self).handle_response_post(
                final(self),
                src,
                response,
                requester,
                message_id,
                request_proof,
                r,
            ),
    {
        match request_proof {
            Some((request, signature)) => {
                if !requester.is_node() && self.validate_section_signature(
                    &request,
                    &signature,
                ).is_none() {
                    return None;
                }
                match response {
                    Response::GetIData(result) => {
                        if requester.is_node() {
                            match result {
                                Ok(data) => self.chunk_storage.store_idata(
                                    src,
                                    &data,
                                    requester,
                                    message_id,
                                ),
                                Err(_) => None,
                            }
                        } else {
                            None
                        }
                    },
                    _ => None,
                }
            },
            None => None,
        }
    }
}

} // verus!
