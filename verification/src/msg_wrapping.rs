//! Wrapping what an elder sends: every message goes out under the duty
//! that it was sent in, with this node's share of the section signature
//! over its bytes, and what comes in under a section signature is checked
//! against the public key of the section.

use crate::crypto::{bls_verifies, signature_verifies};
use crate::messages::{ChunkAddress, ChunkWrite, Error, MessageId, PublicKey, Signature};
use crate::name::XorName;
use crate::transfers::events::CreditAgreementProof;
use vstd::prelude::*;

verus! {

/// The duties of an elder that an envelope can be sent under.
#[derive(Clone, Copy, Debug, PartialEq, Eq, Structural)]
pub enum ElderDuties {
    Metadata,
    Payment,
    Transfer,
    Rewards,
}

/// A command of a client.
#[derive(Debug)]
pub enum Cmd {
    /// A change to the chunks, with the payment for it.
    Data { payment: CreditAgreementProof, cmd: ChunkWrite },
    /// Any other command, as bytes.
    Other(Vec<u8>),
}

/// What an envelope carries.
#[derive(Debug)]
pub enum Message {
    Cmd { cmd: Cmd, id: MessageId },
    Other { id: MessageId },
}

/// A message with the address of the party that it came from.
#[derive(Debug)]
pub struct MsgEnvelope {
    pub message: Message,
    pub origin: XorName,
}

/// What is wrong with a transfer.
#[derive(Clone, Copy, Debug, PartialEq, Eq, Structural)]
pub enum TransferError {
    TransferRegistration(Error),
}

/// What is wrong with a command.
#[derive(Clone, Copy, Debug, PartialEq, Eq, Structural)]
pub enum CmdError {
    Transfer(TransferError),
}

/// What an elder hands to the overlay to send. The overlay signs it with
/// this node's key share as it sends it.
#[derive(Debug)]
pub enum NodeOperation {
    /// Tell the origin of a command what is wrong with it.
    SendError { duty: ElderDuties, error: CmdError, correlation_id: MessageId, to: XorName },
    /// Pass a paid write on to the section closest to the data.
    Forward {
        duty: ElderDuties,
        cmd: ChunkWrite,
        id: MessageId,
        origin: XorName,
        to: XorName,
    },
}

impl MsgEnvelope {
    pub open spec fn spec_id(&self) -> MessageId {
        match self.message {
            Message::Cmd { id, .. } => id,
            Message::Other { id } => id,
        }
    }

    /// The identifier of the message.
    #[verifier::when_used_as_spec(spec_id)]
    pub fn id(&self) -> (r: MessageId)
        ensures
            r == self.spec_id(),
    {
        match &self.message {
            Message::Cmd { id, .. } => *id,
            Message::Other { id } => *id,
        }
    }
}

/// The address of a change to the chunks: where the data lives.
pub open spec fn write_address(w: ChunkWrite) -> ChunkAddress {
    match w {
        ChunkWrite::New(c) => c.address,
        ChunkWrite::DeletePrivate(a) => a,
    }
}

/// Two changes that say the same.
pub open spec fn same_write(a: ChunkWrite, b: ChunkWrite) -> bool {
    match (a, b) {
        (ChunkWrite::New(x), ChunkWrite::New(y)) => x.same(y),
        (ChunkWrite::DeletePrivate(x), ChunkWrite::DeletePrivate(y)) => x == y,
        _ => false,
    }
}

/// `r` tells the origin of `msg` that its payment failed with `e`.
pub open spec fn refuses(r: Option<NodeOperation>, msg: MsgEnvelope, e: Error) -> bool {
    r matches Some(NodeOperation::SendError { duty, error, correlation_id, to }) && duty
        == ElderDuties::Payment && error == CmdError::Transfer(
        TransferError::TransferRegistration(e),
    ) && correlation_id == msg.id() && to == msg.origin
}

/// `r` passes the write `cmd` of `msg` on to the section closest to the
/// data.
pub open spec fn forwards(r: Option<NodeOperation>, msg: MsgEnvelope, cmd: ChunkWrite) -> bool {
    r matches Some(NodeOperation::Forward { duty, cmd: given, id, origin, to }) && duty
        == ElderDuties::Payment && same_write(given, cmd) && id == msg.id() && origin == msg.origin
        && to == write_address(cmd).name
}

/// What stands for the section beside the bytes of an envelope: the share of
/// one elder, while the shares are too few to combine, or the signature of
/// the section.
#[derive(Clone, Copy, Debug)]
pub enum SectionProof {
    Share { index: u64, share: Signature },
    Section(Signature),
}

/// The bytes of a message with the duty that they were sent under and what
/// stands for the section.
#[derive(Debug)]
pub struct Envelope {
    pub duty: ElderDuties,
    pub payload: Vec<u8>,
    pub section_proof: SectionProof,
}

/// Whether the section has signed the envelope: it carries the signature of
/// the section, not a share, and the signature verifies over its bytes
/// under the public key of the section.
pub open spec fn section_signed(key: PublicKey, envelope: Envelope) -> bool {
    envelope.section_proof matches SectionProof::Section(sig) && bls_verifies(
        key@,
        sig@,
        envelope.payload@,
    )
}

/// Verifies an envelope against the public key of the section.
pub fn verify_section(key: &PublicKey, envelope: &Envelope) -> (r: bool)
    ensures
        r == section_signed(*key, *envelope),
{
    match &envelope.section_proof {
        SectionProof::Section(sig) => signature_verifies(key, sig, envelope.payload.as_slice()),
        SectionProof::Share { .. } => false,
    }
}

/// The wrapping of the messages of one duty of an elder.
pub struct ElderMsgWrapping {
    duty: ElderDuties,
}

impl ElderMsgWrapping {
    /// The duty that the messages go out under.
    pub closed spec fn duty(&self) -> ElderDuties {
        self.duty
    }

    /// The wrapping for a duty.
    pub fn new(duty: ElderDuties) -> (w: ElderMsgWrapping)
        ensures
            w.duty() == duty,
    {
        ElderMsgWrapping { duty }
    }

    /// Wraps the bytes of a message: the envelope carries the duty, the
    /// bytes as they are, and the share that this node made over them.
    pub fn wrap(&self, payload: Vec<u8>, index: u64, share: Signature) -> (e: Envelope)
        ensures
            e.duty == self.duty(),
            e.payload == payload,
            e.section_proof matches SectionProof::Share { index: i, share: s } && i == index && s
                == share,
    {
        Envelope { duty: self.duty, payload, section_proof: SectionProof::Share { index, share } }
    }

    /// The message that tells `origin` what is wrong with the command that
    /// `msg_id` names.
    pub fn error(&self, error: CmdError, msg_id: MessageId, origin: &XorName) -> (r: Option<
        NodeOperation,
    >)
        ensures
            r matches Some(NodeOperation::SendError { duty, error: e, correlation_id, to })
                && duty == self.duty() && e == error && correlation_id == msg_id && to == *origin,
    {
        Some(
            NodeOperation::SendError {
                duty: self.duty,
                error,
                correlation_id: msg_id,
                to: *origin,
            },
        )
    }

    /// The message that passes the write `cmd` of `msg` on to the section
    /// closest to the data.
    pub fn forward(&self, msg: &MsgEnvelope, cmd: &ChunkWrite) -> (r: Option<NodeOperation>)
        ensures
            r matches Some(NodeOperation::Forward { duty, cmd: given, id, origin, to }) && duty
                == self.duty() && same_write(given, *cmd) && id == msg.id() && origin == msg.origin
                && to == write_address(*cmd).name,
    {
        let (copy, to) = match cmd {
            ChunkWrite::New(c) => (ChunkWrite::New(c.duplicate()), c.address.name),
            ChunkWrite::DeletePrivate(a) => (ChunkWrite::DeletePrivate(*a), a.name),
        };
        Some(
            NodeOperation::Forward { duty: self.duty, cmd: copy, id: msg.id(), origin: msg.origin, to },
        )
    }
}

} // verus!
