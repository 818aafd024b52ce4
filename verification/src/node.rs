//! The node: its roles from infant to elder, the handshake by which the
//! first section mints the initial supply, and the dispatch of duties to the
//! parts that the role has.

pub mod genesis;
pub mod genesis_stage;
pub mod handle;
pub mod node_ops;

use crate::handler::IDataHandler;
use crate::holder::IDataHolder;
use crate::messages::PublicKey;
use crate::name::XorName;
use crate::node::genesis::SectionKeys;
use crate::node::genesis_stage::{GenesisStage, StageView};
use crate::node::node_ops::NodeRole;
use crate::transfers::replica_manager::ReplicaManager;
use vstd::prelude::*;

verus! {

/// The chunks that a node holds for its section.
pub type Chunks = IDataHolder;

/// The elder's side of chunk storage.
pub type Metadata = IDataHandler;

/// The replica of the wallets of the section.
pub type Transfers = ReplicaManager;

/// The payout of rewards. The rewards themselves are kept outside this
/// library: what is kept here is that the node has them.
#[derive(Clone, Copy, Debug, PartialEq, Eq, Structural)]
pub struct RewardPayout {}

/// The funds of a section: paying out rewards, or moving to a new wallet
/// while the elders change.
#[derive(Clone, Copy, Debug, PartialEq, Eq, Structural)]
pub enum SectionFunds {
    Rewarding(RewardPayout),
    Churning,
}

/// What a node is given when it starts: its name, the directory of its
/// transfer logs, and the quota of its chunk store.
pub struct NodeInfo {
    pub node_name: XorName,
    pub transfers_dir: String,
    pub max_capacity: u64,
}

/// What the overlay last told the node of its section.
pub struct Network {
    pub keys: Option<SectionKeys>,
    pub our_index: u64,
    pub adults: Vec<XorName>,
    pub section_chain: Vec<PublicKey>,
    pub byte_price: u64,
}

/// A node.
pub struct Node {
    pub node_info: NodeInfo,
    pub network: Network,
    pub genesis_stage: GenesisStage,
    pub chunks: Option<Chunks>,
    pub meta_data: Option<Metadata>,
    pub transfers: Option<Transfers>,
    pub section_funds: Option<SectionFunds>,
}

impl Node {
    /// The node has the parts of an elder.
    pub open spec fn is_elder(&self) -> bool {
        self.chunks is Some && self.meta_data is Some && self.transfers is Some
            && self.section_funds is Some
    }

    /// The node has the chunks of an adult and no part of an elder.
    pub open spec fn is_adult(&self) -> bool {
        self.chunks is Some && self.meta_data is None && self.transfers is None
            && self.section_funds is None
    }

    /// The node has no part at all.
    pub open spec fn is_infant(&self) -> bool {
        self.chunks is None && self.meta_data is None && self.transfers is None
            && self.section_funds is None
    }

    /// The node is an infant, an adult or an elder, and every part that it
    /// has is well formed and carries its name.
    pub open spec fn wf(&self) -> bool {
        &&& self.is_infant() || self.is_adult() || self.is_elder()
        &&& self.chunks matches Some(c) ==> c.chunks.wf() && c.id == self.node_info.node_name
        &&& self.meta_data matches Some(m) ==> m.wf() && m.id == self.node_info.node_name
        &&& self.transfers matches Some(t) ==> t.wf()
    }

    /// The role of the node. An adult in the genesis handshake has the role
    /// of the round that it is in.
    pub open spec fn spec_role(&self) -> NodeRole {
        if self.meta_data is Some {
            NodeRole::Elder
        } else if self.chunks is None {
            NodeRole::Infant
        } else {
            match self.genesis_stage@ {
                StageView::ProposingGenesis { .. } => NodeRole::ProposingGenesis,
                StageView::AccumulatingGenesis { .. } => NodeRole::AccumulatingGenesis,
                _ => NodeRole::Adult,
            }
        }
    }

    /// An infant.
    pub fn new(node_info: NodeInfo, network: Network) -> (n: Node)
        ensures
            n.wf(),
            n.is_infant(),
            n.spec_role() == NodeRole::Infant,
            n.node_info == node_info,
            n.network == network,
            n.genesis_stage@ == StageView::NotStarted,
    {
        Node {
            node_info,
            network,
            genesis_stage: GenesisStage::NotStarted,
            chunks: None,
            meta_data: None,
            transfers: None,
            section_funds: None,
        }
    }

    /// The role of the node.
    #[verifier::when_used_as_spec(spec_role)]
    pub fn role(&self) -> (r: NodeRole)
        ensures
            r == self.spec_role(),
    {
        if self.meta_data.is_some() {
            NodeRole::Elder
        } else if self.chunks.is_none() {
            NodeRole::Infant
        } else {
            match &self.genesis_stage {
                GenesisStage::ProposingGenesis(_) => NodeRole::ProposingGenesis,
                GenesisStage::AccumulatingGenesis(_) => NodeRole::AccumulatingGenesis,
                _ => NodeRole::Adult,
            }
        }
    }

    /// Takes note of what the overlay tells of the section. An elder passes
    /// the adults on to its handler.
    pub fn set_network(&mut self, network: Network)
        requires
            old(self).wf(),
        ensures
            final(self).wf(),
            final(self).network == network,
            final(self).node_info == old(self).node_info,
            final(self).genesis_stage == old(self).genesis_stage,
            final(self).chunks == old(self).chunks,
            final(self).transfers == old(self).transfers,
            final(self).section_funds == old(self).section_funds,
            match old(self).meta_data {
                None => final(self).meta_data is None,
                Some(m) => final(self).meta_data matches Some(m2) && m2.adults@ == network.adults@
                    && m2.id == m.id && m2.ops@ == m.ops@ && m2.duplications@ == m.duplications@
                    && m.same_index(&m2),
            },
    {
        match &mut self.meta_data {
            Some(m) => {
                let adults = crate::messages::copy_names(&network.adults);
                m.set_adults(adults);
            },
            None => {},
        }
        self.network = network;
    }
}

} // verus!
