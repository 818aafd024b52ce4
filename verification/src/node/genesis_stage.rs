//! The stages of the genesis handshake.

use crate::messages::Signature;
use crate::transfers::events::{Credit, CreditAgreementProof, CreditView, ProofView, SignedCredit};
use vstd::prelude::*;

verus! {

/// A signature share with the index of the key share that made it.
pub type SignatureIndexShare = (u64, Signature);

/// Round one: the shares over the credit that have come in.
#[derive(Debug)]
pub struct GenesisProposal {
    pub proposal: Credit,
    pub signatures: Vec<SignatureIndexShare>,
}

/// Round two: the shares over the signed credit that have come in.
#[derive(Debug)]
pub struct GenesisAccumulation {
    pub agreed_proposal: SignedCredit,
    pub signatures: Vec<SignatureIndexShare>,
}

/// Where a node stands in the genesis handshake.
#[derive(Debug)]
pub enum GenesisStage {
    /// The handshake has not begun at this node.
    NotStarted,
    /// The node collects shares over the credit.
    ProposingGenesis(GenesisProposal),
    /// The node collects shares over the signed credit.
    AccumulatingGenesis(GenesisAccumulation),
    /// The section has agreed: this is the proof of the first credit.
    Completed(CreditAgreementProof),
}

/// A stage as contracts speak of it.
pub ghost enum StageView {
    NotStarted,
    ProposingGenesis { proposal: CreditView, signatures: Seq<(u64, Seq<u8>)> },
    AccumulatingGenesis {
        credit: CreditView,
        actor_signature: Seq<u8>,
        signatures: Seq<(u64, Seq<u8>)>,
    },
    Completed { credit_proof: ProofView },
}

/// The shares of a list as plain values.
pub open spec fn shares_view(shares: Seq<SignatureIndexShare>) -> Seq<(u64, Seq<u8>)> {
    crate::crypto::share_values(shares)
}

impl View for GenesisStage {
    type V = StageView;

    open spec fn view(&self) -> StageView {
        match *self {
            GenesisStage::NotStarted => StageView::NotStarted,
            GenesisStage::ProposingGenesis(p) => StageView::ProposingGenesis {
                proposal: p.proposal@,
                signatures: shares_view(p.signatures@),
            },
            GenesisStage::AccumulatingGenesis(a) => StageView::AccumulatingGenesis {
                credit: a.agreed_proposal.credit@,
                actor_signature: a.agreed_proposal.actor_signature@,
                signatures: shares_view(a.signatures@),
            },
            GenesisStage::Completed(p) => StageView::Completed { credit_proof: p@ },
        }
    }
}

} // verus!
