//! The values that travel between nodes and clients: identities, chunks,
//! requests, responses, envelopes, and the actions a handler hands back for
//! the overlay to carry out.

use crate::name::XorName;
use vstd::prelude::*;

verus! {

/// The identifier of one exchange. A response carries the identifier of the
/// request it answers.
#[derive(Clone, Copy, Debug, PartialEq, Eq, Structural, Hash)]
pub struct MessageId(pub XorName);

/// Who asked: a node of the network or a client. This is the primary
/// authorization discriminator.
#[derive(Clone, Copy, Debug, PartialEq, Eq, Structural, Hash)]
pub enum PublicId {
    Node(XorName),
    Client(XorName),
}

impl PublicId {
    pub open spec fn spec_name(&self) -> XorName {
        match *self {
            PublicId::Node(n) => n,
            PublicId::Client(n) => n,
        }
    }

    /// The name of the node or client.
    #[verifier::when_used_as_spec(spec_name)]
    pub fn name(&self) -> (r: XorName)
        ensures
            r == self.spec_name(),
    {
        match self {
            PublicId::Node(n) => *n,
            PublicId::Client(n) => *n,
        }
    }

    pub open spec fn spec_is_node(&self) -> bool {
        *self is Node
    }

    /// Tells whether the requester is itself a node.
    #[verifier::when_used_as_spec(spec_is_node)]
    pub fn is_node(&self) -> (r: bool)
        ensures
            r == (*self is Node),
    {
        match self {
            PublicId::Node(_) => true,
            PublicId::Client(_) => false,
        }
    }
}

/// Where a message came from: one node, or a section speaking as a quorum.
#[derive(Clone, Copy, Debug, PartialEq, Eq, Structural, Hash)]
pub enum SrcLocation {
    Node(XorName),
    Section(XorName),
}

impl SrcLocation {
    pub open spec fn spec_is_section(&self) -> bool {
        *self is Section
    }

    /// Tells whether the source is a section.
    #[verifier::when_used_as_spec(spec_is_section)]
    pub fn is_section(&self) -> (r: bool)
        ensures
            r == (*self is Section),
    {
        match self {
            SrcLocation::Node(_) => false,
            SrcLocation::Section(_) => true,
        }
    }

    pub open spec fn spec_name(&self) -> XorName {
        match *self {
            SrcLocation::Node(n) => n,
            SrcLocation::Section(n) => n,
        }
    }

    /// The name of the sending node, or the name that stands for the section.
    #[verifier::when_used_as_spec(spec_name)]
    pub fn name(&self) -> (r: XorName)
        ensures
            r == self.spec_name(),
    {
        match self {
            SrcLocation::Node(n) => *n,
            SrcLocation::Section(n) => *n,
        }
    }
}

/// Why a node cannot carry out a duty.
#[derive(Clone, Copy, Debug, PartialEq, Eq, Structural, Hash)]
pub enum Missing {
    /// No immutable chunks at this node.
    Chunks,
    /// No meta data at this node.
    Metadata,
    /// No transfers at this node.
    Transfers,
    /// No section funds at this node.
    SectionFunds,
    /// Section fund churn, cannot complete request.
    SectionFundChurn,
}

/// What a handler can report to the party that asked.
#[derive(Clone, Copy, Debug, PartialEq, Eq, Structural, Hash)]
pub enum Error {
    /// A section signature did not verify.
    InvalidSignature,
    /// The disk quota would be exceeded.
    QuotaExceeded,
    /// A public chunk is already stored under the address.
    AlreadyExists,
    /// No chunk is stored under the address, or no holder could serve it.
    NoSuchData,
    /// The requester does not own the private chunk.
    AccessDenied,
    /// The request does not apply to the value it names.
    InvalidOperation,
    /// The node has not the part that the duty is for.
    Missing(Missing),
    /// The bytes of a chunk do not hash to its address.
    AddressMismatch,
    /// A payment names a wallet other than this section's.
    NoSuchRecipient,
    /// A payment is below the store cost, or a debit exceeds the balance.
    InsufficientBalance,
    /// No section key set is known.
    NoSuchKey,
    /// The credit was signed by a key that the section chain does not hold.
    UnknownSectionKey,
    /// The storage refused to read or write, or holds what it should not.
    Storage,
    /// The signature shares at hand do not combine under the key set.
    CouldNotCombineSignatures,
    /// A credit would take a balance past the largest amount there is.
    ExcessiveValue,
    /// The next position of a log, which is the one named, is taken: the
    /// log has more than one writer or is damaged.
    KeyExists(usize),
}

/// Whether a chunk is world-readable and permanent, or owned and deletable.
#[derive(Clone, Copy, Debug, PartialEq, Eq, Structural, Hash)]
pub enum ChunkKind {
    Public,
    Private,
}

/// The address of a chunk: its kind and the fingerprint of its contents.
#[derive(Clone, Copy, Debug, PartialEq, Eq, Structural, Hash)]
pub struct ChunkAddress {
    pub kind: ChunkKind,
    pub name: XorName,
}

/// A content-addressed immutable blob. A private chunk names its owner.
#[derive(Debug)]
pub struct Chunk {
    pub address: ChunkAddress,
    pub owner: Option<XorName>,
    pub bytes: Vec<u8>,
}

/// Copies a byte string.
pub fn copy_bytes(src: &Vec<u8>) -> (r: Vec<u8>)
    ensures
        r@ == src@,
{
    let mut r: Vec<u8> = Vec::new();
    let mut i: usize = 0;
    while i < src.len()
        invariant
            i <= src.len(),
            r@ == src@.take(i as int),
        decreases src.len() - i,
    {
        r.push(src[i]);
        proof {
            assert(src@.take(i as int + 1) =~= src@.take(i as int).push(src@[i as int]));
        }
        i += 1;
    }
    proof {
        assert(src@.take(src.len() as int) =~= src@);
    }
    r
}

/// Copies a list of names.
pub fn copy_names(src: &Vec<XorName>) -> (r: Vec<XorName>)
    ensures
        r@ == src@,
{
    let mut r: Vec<XorName> = Vec::new();
    let mut i: usize = 0;
    while i < src.len()
        invariant
            i <= src.len(),
            r@ == src@.take(i as int),
        decreases src.len() - i,
    {
        r.push(src[i]);
        proof {
            assert(src@.take(i as int + 1) =~= src@.take(i as int).push(src@[i as int]));
        }
        i += 1;
    }
    proof {
        assert(src@.take(src.len() as int) =~= src@);
    }
    r
}

impl Chunk {
    /// The chunk as contracts speak of it: address, owner and contents.
    pub open spec fn same(self, other: Chunk) -> bool {
        &&& self.address == other.address
        &&& self.owner == other.owner
        &&& self.bytes@ == other.bytes@
    }

    /// A copy with the same address, owner and contents.
    pub fn duplicate(&self) -> (r: Chunk)
        ensures
            r.same(*self),
    {
        Chunk { address: self.address, owner: self.owner, bytes: copy_bytes(&self.bytes) }
    }
}

/// What can be asked about a chunk.
#[derive(Debug)]
pub enum IDataRequest {
    Put(Chunk),
    Get(ChunkAddress),
    DeleteUnpub(ChunkAddress),
}

/// A change to the chunks that a holder keeps.
#[derive(Debug)]
pub enum ChunkWrite {
    New(Chunk),
    DeletePrivate(ChunkAddress),
}

/// What a section asks of one of its nodes.
#[derive(Debug)]
pub enum NodeRequest {
    Read(ChunkAddress),
    Write(ChunkWrite),
}

/// A request. The kinds that this library does not serve itself carry their
/// payload as bytes.
#[derive(Debug)]
pub enum Request {
    IData(IDataRequest),
    MData(Vec<u8>),
    AData(Vec<u8>),
    Coins(Vec<u8>),
    LoginPacket(Vec<u8>),
    Client(Vec<u8>),
    Node(NodeRequest),
}

/// A response. `Other` stands for every kind that a data handler has no use
/// for.
#[derive(Debug)]
pub enum Response {
    Mutation(Result<(), Error>),
    GetIData(Result<Chunk, Error>),
    /// The events of a wallet as its log holds them.
    ReplicaEvents(Vec<Vec<u8>>),
    Other,
}

/// The byte strings of a list of byte vectors.
pub open spec fn byte_strings(v: Seq<Vec<u8>>) -> Seq<Seq<u8>> {
    Seq::new(v.len(), |i: int| v[i]@)
}

/// A signature of the section, or a share of one, in its compressed form.
#[derive(Clone, Copy, Debug)]
pub struct Signature {
    pub bytes: [u8; 96],
}

/// The public key of a section or of a wallet, in its compressed form.
#[derive(Clone, Copy, Debug)]
pub struct PublicKey {
    pub bytes: [u8; 48],
}

impl View for Signature {
    type V = Seq<u8>;

    open spec fn view(&self) -> Seq<u8> {
        self.bytes@
    }
}

impl View for PublicKey {
    type V = Seq<u8>;

    open spec fn view(&self) -> Seq<u8> {
        self.bytes@
    }
}

impl PublicKey {
    /// Tells whether two keys hold the same bytes.
    pub fn same_key(&self, other: &PublicKey) -> (r: bool)
        ensures
            r == (self@ == other@),
    {
        let mut i: usize = 0;
        while i < 48
            invariant
                i <= 48,
                forall|j: int| 0 <= j < i ==> self.bytes@[j] == other.bytes@[j],
            decreases 48 - i,
        {
            if self.bytes[i] != other.bytes[i] {
                return false;
            }
            i += 1;
        }
        assert(self.bytes@ =~= other.bytes@);
        true
    }
}

/// The envelopes of the inbound channel.
#[derive(Debug)]
pub enum Rpc {
    Request { request: Request, requester: PublicId, message_id: MessageId },
    Response {
        response: Response,
        requester: PublicId,
        message_id: MessageId,
        request_proof: Option<(Request, Signature)>,
    },
    Duplicate { address: ChunkAddress, holders: Vec<XorName>, message_id: MessageId },
    DuplicationComplete { response: Response, message_id: MessageId },
}

/// What a handler asks the overlay to do.
#[derive(Debug)]
pub enum Action {
    /// Send `rpc` to each of `targets`, speaking as the section.
    SendMessage { sender: XorName, targets: Vec<XorName>, rpc: Rpc },
    /// Answer the section that gave this node an order.
    RespondToOurDataHandlers { sender: XorName, rpc: Rpc },
    /// Answer the elders that speak for the client.
    RespondToClientHandlers { sender: XorName, rpc: Rpc },
    /// Hand a mutable-data request to the component that serves it.
    HandleMData { requester: PublicId, payload: Vec<u8>, message_id: MessageId },
    /// Hand an append-only-data request to the component that serves it.
    HandleAData { requester: PublicId, payload: Vec<u8>, message_id: MessageId },
}

impl IDataRequest {
    pub open spec fn same(self, other: IDataRequest) -> bool {
        match (self, other) {
            (IDataRequest::Put(a), IDataRequest::Put(b)) => a.same(b),
            (IDataRequest::Get(a), IDataRequest::Get(b)) => a == b,
            (IDataRequest::DeleteUnpub(a), IDataRequest::DeleteUnpub(b)) => a == b,
            _ => false,
        }
    }
}

impl NodeRequest {
    pub open spec fn same(self, other: NodeRequest) -> bool {
        match (self, other) {
            (NodeRequest::Read(a), NodeRequest::Read(b)) => a == b,
            (NodeRequest::Write(ChunkWrite::New(a)), NodeRequest::Write(ChunkWrite::New(b))) => a.same(b),
            (
                NodeRequest::Write(ChunkWrite::DeletePrivate(a)),
                NodeRequest::Write(ChunkWrite::DeletePrivate(b)),
            ) => a == b,
            _ => false,
        }
    }
}

impl Request {
    /// Two requests that say the same: equal in kind, identities and bytes.
    pub open spec fn same(self, other: Request) -> bool {
        match (self, other) {
            (Request::IData(a), Request::IData(b)) => a.same(b),
            (Request::MData(a), Request::MData(b)) => a@ == b@,
            (Request::AData(a), Request::AData(b)) => a@ == b@,
            (Request::Coins(a), Request::Coins(b)) => a@ == b@,
            (Request::LoginPacket(a), Request::LoginPacket(b)) => a@ == b@,
            (Request::Client(a), Request::Client(b)) => a@ == b@,
            (Request::Node(a), Request::Node(b)) => a.same(b),
            _ => false,
        }
    }
}

impl Response {
    /// Two responses that say the same.
    pub open spec fn same(self, other: Response) -> bool {
        match (self, other) {
            (Response::Mutation(a), Response::Mutation(b)) => a == b,
            (Response::GetIData(Ok(a)), Response::GetIData(Ok(b))) => a.same(b),
            (Response::GetIData(Err(a)), Response::GetIData(Err(b))) => a == b,
            (Response::ReplicaEvents(a), Response::ReplicaEvents(b)) => byte_strings(a@)
                == byte_strings(b@),
            (Response::Other, Response::Other) => true,
            _ => false,
        }
    }
}

} // verus!
