//! The duties of a node and what comes of carrying one out.

use crate::messages::{
    Action, ChunkAddress, ChunkWrite, MessageId, Missing, PublicId, PublicKey, Rpc, SrcLocation,
};
use crate::name::XorName;
use crate::node::genesis::GenesisRequest;
use crate::node::genesis_stage::SignatureIndexShare;
use crate::transfers::events::{Credit, CreditAgreementProof, SignedCredit, SignedTransfer};
use vstd::prelude::*;

verus! {

/// One thing for a node to do.
#[derive(Debug)]
#[allow(inconsistent_fields)]
pub enum NodeDuty {
    SetNodeWallet { wallet_id: PublicKey, node_id: XorName, msg_id: MessageId, origin: SrcLocation },
    GetNodeWalletKey {
        old_node_id: XorName,
        new_node_id: XorName,
        msg_id: MessageId,
        origin: SrcLocation,
    },
    ActivateNodeRewards { id: PublicKey, node_id: XorName, msg_id: MessageId, origin: SrcLocation },
    CompleteWalletTransition { replicas: PublicKey, msg_id: MessageId, origin: SrcLocation },
    ReceivePayoutValidation { validation: Vec<u8>, msg_id: MessageId, origin: SrcLocation },
    ProcessNewMember(XorName),
    ProcessLostMember { name: XorName, age: u8 },
    ProcessRelocatedMember { old_node_id: XorName, new_node_id: XorName, age: u8 },
    GetTransferReplicaEvents { msg_id: MessageId, origin: SrcLocation },
    PropagateTransfer { credit_proof: CreditAgreementProof, msg_id: MessageId, origin: SrcLocation },
    ValidateSectionPayout {
        signed_transfer: SignedTransfer,
        msg_id: MessageId,
        origin: SrcLocation,
    },
    RegisterSectionPayout {
        debit_agreement: CreditAgreementProof,
        msg_id: MessageId,
        origin: SrcLocation,
    },
    ReadChunk { read: ChunkAddress, msg_id: MessageId, origin: SrcLocation, requester: PublicId },
    WriteChunk { write: ChunkWrite, msg_id: MessageId, origin: SrcLocation, requester: PublicId },
    GetSectionElders { msg_id: MessageId, origin: SrcLocation },
    BeginFormingGenesisSection,
    ReceiveGenesisProposal { credit: Credit, sig: SignatureIndexShare },
    ReceiveGenesisAccumulation { signed_credit: SignedCredit, sig: SignatureIndexShare },
    LevelUp,
    LevelDown,
    UpdateElderInfo { prefix: XorName, key: PublicKey, sibling_key: Option<PublicKey> },
    CompleteElderChange { previous_key: PublicKey, new_key: PublicKey },
    InformNewElders,
    CompleteTransitionToElder { section_wallet: PublicKey },
    ReachingMaxCapacity,
    IncrementFullNodeCount { node_id: PublicKey },
    SwitchNodeJoin(bool),
    Send(Action),
    SendToNodes { targets: Vec<XorName>, msg: Rpc },
    ProcessRead { query: ChunkAddress, id: MessageId, origin: PublicId },
    ProcessWrite { cmd: ChunkWrite, id: MessageId, origin: PublicId },
    NoOp,
}

/// The duties that come of carrying one out.
pub type NodeDuties = Vec<NodeDuty>;

/// A call on the rewards of the section, which are kept outside this
/// library.
#[derive(Debug)]
pub enum RewardsCall {
    SetNodeWallet { node_id: XorName, wallet_id: PublicKey },
    GetWalletKey {
        old_node_id: XorName,
        new_node_id: XorName,
        msg_id: MessageId,
        origin: SrcLocation,
    },
    ActivateNodeRewards { id: PublicKey, node_id: XorName },
    ReceiveValidation { validation: Vec<u8> },
}

/// Work that only the overlay, or a part of the node outside this library,
/// can do.
#[derive(Debug)]
pub enum OutsideWork {
    /// Send what the action says.
    Send(Action),
    /// Send an envelope to nodes.
    SendToNodes { targets: Vec<XorName>, msg: Rpc },
    /// Call on the rewards of the section and carry out the duty that comes
    /// back.
    Rewards(RewardsCall),
    /// Tell `origin` who the elders of the section are.
    GetSectionElders { msg_id: MessageId, origin: SrcLocation },
    /// Sign for the genesis handshake and send the share round.
    Genesis(GenesisRequest),
}

/// What comes of carrying out a duty: more duties for the node, or one
/// piece of work for the outside.
#[derive(Debug)]
pub enum Outcome {
    Duties(NodeDuties),
    Outside(OutsideWork),
}

/// The roles of a node.
#[derive(Clone, Copy, Debug, PartialEq, Eq, Structural)]
pub enum NodeRole {
    Infant,
    Adult,
    ProposingGenesis,
    AccumulatingGenesis,
    Elder,
}

impl Missing {
    /// The words of the refusal.
    pub fn describe(&self) -> (r: &'static str)
        ensures
            r@ == match *self {
                Missing::Chunks => "No immutable chunks at this node"@,
                Missing::Metadata => "No meta data at this node"@,
                Missing::Transfers => "No transfers at this node"@,
                Missing::SectionFunds => "No section funds at this node"@,
                Missing::SectionFundChurn => "Section fund churn, cannot complete request."@,
            },
    {
        match self {
            Missing::Chunks => "No immutable chunks at this node",
            Missing::Metadata => "No meta data at this node",
            Missing::Transfers => "No transfers at this node",
            Missing::SectionFunds => "No section funds at this node",
            Missing::SectionFundChurn => "Section fund churn, cannot complete request.",
        }
    }
}

} // verus!
