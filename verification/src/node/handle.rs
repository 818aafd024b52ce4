//! Carrying out the duties of a node.

use crate::handler::{tells_client, IDataHandler};
use crate::holder::IDataHolder;
use crate::messages::{
    byte_strings, copy_names, Action, ChunkAddress, ChunkWrite, Error, MessageId, Missing,
    PublicId, PublicKey, Response, Rpc, SrcLocation,
};
use crate::name::XorName;
use crate::node::genesis::{
    accumulation_post, begin_forming_genesis_section, begin_post, genesis_credit, proposal_post,
    receive_genesis_accumulation, receive_genesis_proposal, GenesisRequest, SectionKeys,
    GENESIS_AMOUNT,
};
use crate::node::genesis_stage::{GenesisStage, SignatureIndexShare, StageView};
use crate::node::node_ops::{NodeDuty, NodeRole, Outcome, OutsideWork, RewardsCall};
use crate::node::{Chunks, Metadata, Node, RewardPayout, SectionFunds, Transfers};
use crate::transfers::events::{
    fold, lemma_fold_push, CreditAgreementProof, EventView, ProofView, SignedCredit,
};
use crate::transfers::replica_manager::{encodings, ReplicaManager};
use vstd::prelude::*;

verus! {

/// `r` is done with nothing more to do.
pub open spec fn done(r: Result<Outcome, Error>) -> bool {
    r matches Ok(Outcome::Duties(d)) && d@.len() == 0
}

/// `r` hands one piece of work to the outside.
pub open spec fn outside(r: Result<Outcome, Error>) -> bool {
    r matches Ok(Outcome::Outside(_))
}

/// `r` refuses with `e`.
pub open spec fn refused(r: Result<Outcome, Error>, e: Error) -> bool {
    r matches Err(given) && given == e
}

/// `r` is the duty to send what `action` says, where there is an action,
/// and nothing more to do where there is none.
pub open spec fn sends_action(r: Result<Outcome, Error>, action: Option<Action>) -> bool {
    r matches Ok(Outcome::Duties(d)) && match action {
        Some(a) => d@.len() == 1 && (d@[0] matches NodeDuty::Send(given) && given == a),
        None => d@.len() == 0,
    }
}

/// `r` is the duty to answer `origin` with `response`.
pub open spec fn answers_origin(
    r: Result<Outcome, Error>,
    sender: XorName,
    origin: SrcLocation,
    msg_id: MessageId,
    response: Response,
) -> bool {
    r matches Ok(Outcome::Duties(d)) && d@.len() == 1 && (d@[0] matches NodeDuty::Send(a)
        && tells_client(Some(a), sender, PublicId::Node(origin.name()), msg_id, response))
}

/// What a replica answered, without the detail of whether it recorded
/// anything.
pub open spec fn plain(r: Result<bool, Error>) -> Result<(), Error> {
    match r {
        Ok(_) => Ok(()),
        Err(e) => Err(e),
    }
}

/// `r` is the duties to send what each of `actions` says, in their order.
pub open spec fn sends_all(r: Result<Outcome, Error>, actions: Seq<Action>) -> bool {
    r matches Ok(Outcome::Duties(d)) && d@.len() == actions.len() && forall|i: int|
        0 <= i < actions.len() ==> (#[trigger] d@[i] matches NodeDuty::Send(given) && given
            == actions[i])
}

/// `r` is what follows a step of the genesis handshake that answered `res`:
/// the request goes to the outside, a step that asks nothing leaves nothing
/// to do, and a refusal is passed on.
pub open spec fn follows(
    r: Result<Outcome, Error>,
    res: Result<Option<GenesisRequest>, Error>,
) -> bool {
    match res {
        Ok(Some(q)) => r matches Ok(Outcome::Outside(OutsideWork::Genesis(g))) && g == q,
        Ok(None) => done(r),
        Err(e) => refused(r, e),
    }
}

/// The public key of the section, where the keys are known.
pub open spec fn section_key_of(keys: Option<SectionKeys>) -> Option<PublicKey> {
    match keys {
        Some(k) => Some(k.public_key),
        None => None,
    }
}

impl Node {
    /// Nothing changed.
    pub open spec fn unchanged(&self, after: &Node) -> bool {
        *after == *self
    }

    /// Nothing changed but, at most, the chunks.
    pub open spec fn same_but_chunks(&self, after: &Node) -> bool {
        &&& after.node_info == self.node_info
        &&& after.network == self.network
        &&& after.genesis_stage == self.genesis_stage
        &&& after.meta_data == self.meta_data
        &&& after.transfers == self.transfers
        &&& after.section_funds == self.section_funds
    }

    /// Nothing changed but, at most, the elder's side of the chunks.
    pub open spec fn same_but_meta_data(&self, after: &Node) -> bool {
        &&& after.node_info == self.node_info
        &&& after.network == self.network
        &&& after.genesis_stage == self.genesis_stage
        &&& after.chunks == self.chunks
        &&& after.transfers == self.transfers
        &&& after.section_funds == self.section_funds
    }

    /// Nothing changed but, at most, the transfers.
    pub open spec fn same_but_transfers(&self, after: &Node) -> bool {
        &&& after.node_info == self.node_info
        &&& after.network == self.network
        &&& after.genesis_stage == self.genesis_stage
        &&& after.chunks == self.chunks
        &&& after.meta_data == self.meta_data
        &&& after.section_funds == self.section_funds
    }

    /// Nothing changed but, at most, the stage of the genesis handshake.
    pub open spec fn same_but_stage(&self, after: &Node) -> bool {
        &&& after.node_info == self.node_info
        &&& after.network == self.network
        &&& after.chunks == self.chunks
        &&& after.meta_data == self.meta_data
        &&& after.transfers == self.transfers
        &&& after.section_funds == self.section_funds
    }

    /// The chunks of the node, where it has them.
    pub fn get_chunks(&mut self) -> (r: Result<&mut Chunks, Error>)
        ensures
            match r {
                Ok(chunks) => old(self).chunks == Some(*chunks) && final(self).chunks == Some(
                    *final(chunks),
                ) && old(self).same_but_chunks(final(self)),
                Err(e) => old(self).chunks is None && e == Error::Missing(Missing::Chunks)
                    && old(self).unchanged(final(self)),
            },
    {
        if let Some(chunks) = &mut self.chunks {
            Ok(chunks)
        } else {
            Err(Error::Missing(Missing::Chunks))
        }
    }

    /// The elder's side of the chunks, where the node has it.
    pub fn get_metadata(&mut self) -> (r: Result<&mut Metadata, Error>)
        ensures
            match r {
                Ok(meta_data) => old(self).meta_data == Some(*meta_data) && final(self).meta_data
                    == Some(*final(meta_data)) && old(self).same_but_meta_data(final(self)),
                Err(e) => old(self).meta_data is None && e == Error::Missing(Missing::Metadata)
                    && old(self).unchanged(final(self)),
            },
    {
        if let Some(meta_data) = &mut self.meta_data {
            Ok(meta_data)
        } else {
            Err(Error::Missing(Missing::Metadata))
        }
    }

    /// The transfers of the node, where it has them.
    pub fn get_transfers(&mut self) -> (r: Result<&mut Transfers, Error>)
        ensures
            match r {
                Ok(transfers) => old(self).transfers == Some(*transfers) && final(self).transfers
                    == Some(*final(transfers)) && old(self).same_but_transfers(final(self)),
                Err(e) => old(self).transfers is None && e == Error::Missing(Missing::Transfers)
                    && old(self).unchanged(final(self)),
            },
    {
        if let Some(transfers) = &mut self.transfers {
            Ok(transfers)
        } else {
            Err(Error::Missing(Missing::Transfers))
        }
    }

    /// What `get_rewards` answers: the payout of rewards where the section
    /// funds are paying out, and a refusal where the node has no section
    /// funds or where they are moving.
    pub open spec fn rewards_of(&self) -> Result<RewardPayout, Error> {
        match self.section_funds {
            None => Err(Error::Missing(Missing::SectionFunds)),
            Some(SectionFunds::Rewarding(rewards)) => Ok(rewards),
            Some(SectionFunds::Churning) => Err(Error::Missing(Missing::SectionFundChurn)),
        }
    }

    /// The payout of rewards, where the node has it.
    pub fn get_rewards(&mut self) -> (r: Result<&mut RewardPayout, Error>)
        ensures
            match r {
                Ok(rewards) => old(self).rewards_of() == Ok::<RewardPayout, Error>(*rewards)
                    && final(self).section_funds == Some(SectionFunds::Rewarding(*final(rewards)))
                    && final(self).node_info == old(self).node_info && final(self).network == old(self).network && final(self).genesis_stage == old(self).genesis_stage && final(self).chunks == old(self).chunks && final(self).meta_data == old(self).meta_data
                    && final(self).transfers == old(self).transfers,
                Err(e) => old(self).rewards_of() == Err::<RewardPayout, Error>(e) && old(self).unchanged(final(self)),
            },
    {
        if self.section_funds.is_none() {
            Err(Error::Missing(Missing::SectionFunds))
        } else if let Some(SectionFunds::Rewarding(rewards)) = &mut self.section_funds {
            Ok(rewards)
        } else {
            Err(Error::Missing(Missing::SectionFundChurn))
        }
    }

    /// `chunks` is an empty store for this node.
    pub open spec fn fresh_chunks(&self, chunks: Chunks) -> bool {
        &&& chunks.id == self.node_info.node_name
        &&& chunks.chunks.wf()
        &&& chunks.chunks.capacity() == self.node_info.max_capacity
        &&& chunks.chunks.used_space() == 0
        &&& forall|a: ChunkAddress| !chunks.chunks.has(a)
    }

    /// `m` is the handler of a new elder: it knows the adults of the
    /// section and no chunk.
    pub open spec fn fresh_meta_data(&self, m: Metadata) -> bool {
        &&& m.wf()
        &&& m.id == self.node_info.node_name
        &&& m.adults@ == self.network.adults@
        &&& m.ops@.len() == 0
        &&& m.duplications@.len() == 0
        &&& forall|a: ChunkAddress, n: XorName| !m.index.holds(a, n)
    }

    /// `t` is the replica of a new elder: it knows the section and no
    /// wallet.
    pub open spec fn fresh_transfers(&self, t: Transfers) -> bool {
        &&& t.wf()
        &&& t.transfers_dir@ == self.node_info.transfers_dir@
        &&& t.section_key == section_key_of(self.network.keys)
        &&& t.key_index == self.network.our_index
        &&& t.section_chain@ == self.network.section_chain@
        &&& t.byte_price == self.network.byte_price
        &&& forall|k: Seq<u8>| t.events_of(k).len() == 0
    }

    /// `after` is this adult as an elder with `t` as its replica: it keeps
    /// its chunks and has the handler of a new elder and the payout of
    /// rewards.
    pub open spec fn promoted(&self, after: &Node, t: Transfers) -> bool {
        &&& after.node_info == self.node_info
        &&& after.network == self.network
        &&& after.chunks == self.chunks
        &&& after.transfers == Some(t)
        &&& after.section_funds == Some(SectionFunds::Rewarding(RewardPayout {  }))
        &&& after.meta_data matches Some(m) && self.fresh_meta_data(m)
    }

    /// One way in which an adult is promoted: `fresh` is the replica of a
    /// new elder, `t` is that replica after it was given the genesis credit,
    /// where there is one, and `res` is what it answered.
    pub open spec fn promotion(
        &self,
        after: &Node,
        genesis: Option<ProofView>,
        fresh: Transfers,
        t: Transfers,
        res: Result<bool, Error>,
        r: Result<Outcome, Error>,
    ) -> bool {
        &&& self.fresh_transfers(fresh)
        &&& t.wf()
        &&& match genesis {
            None => t == fresh && self.promoted(after, t) && done(r),
            Some(p) => fresh.record_post(&t, p, true, res) && match res {
                Ok(_) => self.promoted(after, t) && done(r),
                Err(e) => refused(r, e) && self.same_but_stage(after),
            },
        }
    }

    /// What promoting an adult does. Without a genesis credit the adult
    /// becomes an elder with a replica that knows no wallet. With the proof
    /// of the genesis credit the replica takes the credit as propagated
    /// first: where it does, the adult becomes an elder with that replica;
    /// where it refuses, the refusal is passed on and the node keeps its
    /// parts.
    pub open spec fn elder_post(
        &self,
        after: &Node,
        genesis: Option<ProofView>,
        r: Result<Outcome, Error>,
    ) -> bool {
        exists|fresh: Transfers, t: Transfers, res: Result<bool, Error>| #[trigger]
            self.promotion(after, genesis, fresh, t, res, r)
    }

    /// What `LevelUp` does: an infant becomes an adult with an empty store,
    /// an adult becomes an elder, and an elder stays as it is.
    pub open spec fn level_up_post(&self, after: &Node, r: Result<Outcome, Error>) -> bool {
        &&& after.genesis_stage == self.genesis_stage
        &&& if self.is_infant() {
            &&& done(r)
            &&& after.is_adult()
            &&& after.node_info == self.node_info
            &&& after.network == self.network
            &&& after.chunks matches Some(c) && self.fresh_chunks(c)
        } else if self.is_adult() {
            self.elder_post(after, None, r)
        } else {
            done(r) && self.unchanged(after)
        }
    }

    /// What `LevelDown` does: the node becomes an adult. It keeps its
    /// chunks, or gets an empty store where it had none, and drops
    /// everything else: the parts of an elder and the genesis handshake.
    pub open spec fn level_down_post(&self, after: &Node, r: Result<Outcome, Error>) -> bool {
        &&& done(r)
        &&& after.is_adult()
        &&& after.node_info == self.node_info
        &&& after.network == self.network
        &&& after.genesis_stage@ == StageView::NotStarted
        &&& match self.chunks {
            Some(c) => after.chunks == Some(c),
            None => after.chunks matches Some(c) && self.fresh_chunks(c),
        }
    }

    /// What a duty of the genesis handshake does. Only an adult takes part:
    /// an elder lets the duty pass and an infant refuses it. An adult that
    /// does not know the keys of its section refuses with `NoSuchKey`. Else
    /// the step is taken, with `res` as its answer, and the stage is what
    /// the step says.
    pub open spec fn genesis_gate(&self, after: &Node, r: Result<Outcome, Error>) -> Option<
        SectionKeys,
    > {
        if !self.is_adult() || self.network.keys is None {
            None
        } else {
            self.network.keys
        }
    }

    /// What a duty of the genesis handshake does where no step is taken.
    pub open spec fn genesis_skipped(&self, after: &Node, r: Result<Outcome, Error>) -> bool {
        &&& self.unchanged(after)
        &&& if self.is_elder() {
            done(r)
        } else if !self.is_adult() {
            refused(r, Error::InvalidOperation)
        } else {
            refused(r, Error::NoSuchKey)
        }
    }

    /// `r` hands `work` to the outside and nothing changed.
    pub open spec fn outside_post(
        &self,
        after: &Node,
        work: OutsideWork,
        r: Result<Outcome, Error>,
    ) -> bool {
        &&& self.unchanged(after)
        &&& r matches Ok(Outcome::Outside(w)) && w == work
    }

    /// What a duty for the rewards does: a node that pays out rewards hands
    /// the call to the outside, any other node refuses as `get_rewards`
    /// does.
    pub open spec fn rewards_post(
        &self,
        after: &Node,
        call: RewardsCall,
        r: Result<Outcome, Error>,
    ) -> bool {
        &&& self.unchanged(after)
        &&& match self.rewards_of() {
            Err(e) => refused(r, e),
            Ok(_) => r matches Ok(Outcome::Outside(OutsideWork::Rewards(c))) && c == call,
        }
    }

    /// What the loss of a member does: an elder orders the copies of the
    /// chunks that the member held, and the orders are the duties to send.
    pub open spec fn lost_member_post(
        &self,
        after: &Node,
        name: XorName,
        r: Result<Outcome, Error>,
    ) -> bool {
        &&& self.same_but_meta_data(after)
        &&& match self.meta_data {
            None => done(r) && self.unchanged(after),
            Some(m) => after.meta_data matches Some(m2) && exists|actions: Vec<Action>|
                #![trigger sends_all(r, actions@)]
                m.trigger_data_copy_process_post(&m2, name, Some(actions)) && sends_all(
                    r,
                    actions@,
                ),
        }
    }

    /// What asking for the events of the replica does: the origin is sent
    /// the events of the wallet of the section, as the log holds them.
    pub open spec fn replica_events_post(
        &self,
        after: &Node,
        msg_id: MessageId,
        origin: SrcLocation,
        r: Result<Outcome, Error>,
    ) -> bool {
        &&& self.unchanged(after)
        &&& match self.transfers {
            None => refused(r, Error::Missing(Missing::Transfers)),
            Some(t) => exists|events: Vec<Vec<u8>>|
                #![trigger byte_strings(events@)]
                byte_strings(events@) == (match t.section_key {
                    Some(k) => encodings(t.events_of(k@)),
                    None => Seq::<Seq<u8>>::empty(),
                }) && answers_origin(
                    r,
                    self.node_info.node_name,
                    origin,
                    msg_id,
                    Response::ReplicaEvents(events),
                ),
        }
    }

    /// What recording a proof at the replica does: the origin is sent what
    /// the replica answered.
    pub open spec fn record_duty_post(
        &self,
        after: &Node,
        p: ProofView,
        propagated: bool,
        msg_id: MessageId,
        origin: SrcLocation,
        r: Result<Outcome, Error>,
    ) -> bool {
        &&& self.same_but_transfers(after)
        &&& match self.transfers {
            None => refused(r, Error::Missing(Missing::Transfers)) && self.unchanged(after),
            Some(t) => after.transfers matches Some(t2) && exists|res: Result<bool, Error>|
                #![trigger t.record_post(&t2, p, propagated, res)]
                t.record_post(&t2, p, propagated, res) && answers_origin(
                    r,
                    self.node_info.node_name,
                    origin,
                    msg_id,
                    Response::Mutation(plain(res)),
                ),
        }
    }

    /// What validating a transfer at the replica does: the origin is sent
    /// what the replica answered.
    pub open spec fn validate_duty_post(
        &self,
        after: &Node,
        sender: Seq<u8>,
        credit: crate::transfers::events::CreditView,
        actor_signature: Seq<u8>,
        msg_id: MessageId,
        origin: SrcLocation,
        r: Result<Outcome, Error>,
    ) -> bool {
        &&& self.same_but_transfers(after)
        &&& match self.transfers {
            None => refused(r, Error::Missing(Missing::Transfers)) && self.unchanged(after),
            Some(t) => after.transfers matches Some(t2) && exists|res: Result<bool, Error>|
                #![trigger t.validate_post(&t2, sender, credit, actor_signature, res)]
                t.validate_post(&t2, sender, credit, actor_signature, res) && answers_origin(
                    r,
                    self.node_info.node_name,
                    origin,
                    msg_id,
                    Response::Mutation(plain(res)),
                ),
        }
    }

    /// What reading a chunk does: the holder's answer is the duty to send.
    pub open spec fn read_chunk_post(
        &self,
        after: &Node,
        read: ChunkAddress,
        msg_id: MessageId,
        origin: SrcLocation,
        requester: PublicId,
        r: Result<Outcome, Error>,
    ) -> bool {
        &&& self.unchanged(after)
        &&& match self.chunks {
            None => refused(r, Error::Missing(Missing::Chunks)),
            Some(c) => exists|a: Option<Action>|
                #![trigger sends_action(r, a)]
                c.get_idata_post(origin, read, requester, msg_id, a) && sends_action(r, a),
        }
    }

    /// What a change to the chunks does: the holder's answer is the duty to
    /// send.
    pub open spec fn write_chunk_post(
        &self,
        after: &Node,
        write: ChunkWrite,
        msg_id: MessageId,
        origin: SrcLocation,
        requester: PublicId,
        r: Result<Outcome, Error>,
    ) -> bool {
        &&& self.same_but_chunks(after)
        &&& match self.chunks {
            None => refused(r, Error::Missing(Missing::Chunks)) && self.unchanged(after),
            Some(c) => after.chunks matches Some(c2) && exists|a: Option<Action>|
                #![trigger sends_action(r, a)]
                sends_action(r, a) && match write {
                    ChunkWrite::New(data) => c.store_idata_post(
                        &c2,
                        origin,
                        data,
                        requester,
                        msg_id,
                        a,
                    ),
                    ChunkWrite::DeletePrivate(address) => c.delete_unpub_idata_post(
                        &c2,
                        address,
                        requester,
                        msg_id,
                        a,
                    ),
                },
        }
    }

    /// What a client's read does at an elder: what the handler sends is the
    /// duty to send.
    pub open spec fn process_read_post(
        &self,
        after: &Node,
        query: ChunkAddress,
        id: MessageId,
        origin: PublicId,
        r: Result<Outcome, Error>,
    ) -> bool {
        &&& self.same_but_meta_data(after)
        &&& match self.meta_data {
            None => refused(r, Error::Missing(Missing::Metadata)) && self.unchanged(after),
            Some(m) => after.meta_data matches Some(m2) && exists|a: Option<Action>|
                #![trigger sends_action(r, a)]
                sends_action(r, a) && m.handle_get_idata_req_post(&m2, origin, query, id, a),
        }
    }

    /// What a client's write does at an elder: what the handler sends is
    /// the duty to send.
    pub open spec fn process_write_post(
        &self,
        after: &Node,
        cmd: ChunkWrite,
        id: MessageId,
        origin: PublicId,
        r: Result<Outcome, Error>,
    ) -> bool {
        &&& self.same_but_meta_data(after)
        &&& match self.meta_data {
            None => refused(r, Error::Missing(Missing::Metadata)) && self.unchanged(after),
            Some(m) => after.meta_data matches Some(m2) && exists|a: Option<Action>|
                #![trigger sends_action(r, a)]
                sends_action(r, a) && match cmd {
                    ChunkWrite::New(data) => m.handle_put_idata_req_post(&m2, origin, data, id, a),
                    ChunkWrite::DeletePrivate(address) => m.handle_delete_unpub_idata_req_post(
                        &m2,
                        origin,
                        address,
                        id,
                        a,
                    ),
                },
        }
    }

    /// What beginning the genesis handshake does.
    pub open spec fn begin_genesis_post(&self, after: &Node, r: Result<Outcome, Error>) -> bool {
        match self.genesis_gate(after, r) {
            None => self.genesis_skipped(after, r),
            Some(keys) => self.same_but_stage(after) && exists|
                res: Result<Option<GenesisRequest>, Error>,
            |
                #![trigger follows(r, res)]
                follows(r, res) && begin_post(
                    &keys,
                    self.genesis_stage@,
                    after.genesis_stage@,
                    res,
                ),
        }
    }

    /// What a share of round one does.
    pub open spec fn genesis_proposal_post(
        &self,
        after: &Node,
        credit: crate::transfers::events::CreditView,
        index: u64,
        share: Seq<u8>,
        r: Result<Outcome, Error>,
    ) -> bool {
        match self.genesis_gate(after, r) {
            None => self.genesis_skipped(after, r),
            Some(keys) => self.same_but_stage(after) && exists|
                res: Result<Option<GenesisRequest>, Error>,
            |
                #![trigger follows(r, res)]
                follows(r, res) && proposal_post(
                    &keys,
                    credit,
                    index,
                    share,
                    self.genesis_stage@,
                    after.genesis_stage@,
                    res,
                ),
        }
    }

    /// A share of round two with `res` as the answer of the step: where the
    /// share completes the handshake the adult is promoted with the proof
    /// of the genesis credit, and else what follows is what follows the
    /// step.
    pub open spec fn accumulation_step(
        &self,
        after: &Node,
        keys: SectionKeys,
        credit: crate::transfers::events::CreditView,
        actor_signature: Seq<u8>,
        index: u64,
        share: Seq<u8>,
        res: Result<Option<GenesisRequest>, Error>,
        r: Result<Outcome, Error>,
    ) -> bool {
        &&& accumulation_post(
            &keys,
            credit,
            actor_signature,
            index,
            share,
            self.genesis_stage@,
            after.genesis_stage@,
            res,
        )
        &&& match after.genesis_stage@ {
            StageView::Completed { credit_proof } => self.elder_post(after, Some(credit_proof), r),
            _ => self.same_but_stage(after) && follows(r, res),
        }
    }

    /// What a share of round two does: where the share completes the
    /// handshake the adult becomes an elder, and its replica takes the
    /// genesis credit as the first credit that reached the wallet of the
    /// section.
    pub open spec fn genesis_accumulation_post(
        &self,
        after: &Node,
        credit: crate::transfers::events::CreditView,
        actor_signature: Seq<u8>,
        index: u64,
        share: Seq<u8>,
        r: Result<Outcome, Error>,
    ) -> bool {
        match self.genesis_gate(after, r) {
            None => self.genesis_skipped(after, r),
            Some(keys) => exists|res: Result<Option<GenesisRequest>, Error>| #[trigger]
                self.accumulation_step(
                    after,
                    keys,
                    credit,
                    actor_signature,
                    index,
                    share,
                    res,
                    r,
                ),
        }
    }

    /// What carrying out a duty does.
    pub open spec fn handle_post(
        &self,
        after: &Node,
        duty: NodeDuty,
        r: Result<Outcome, Error>,
    ) -> bool {
        match duty {
            NodeDuty::SetNodeWallet { wallet_id, node_id, msg_id, origin } => self.rewards_post(
                after,
                RewardsCall::SetNodeWallet { node_id, wallet_id },
                r,
            ),
            NodeDuty::GetNodeWalletKey {
                old_node_id,
                new_node_id,
                msg_id,
                origin,
            } => self.rewards_post(
                after,
                RewardsCall::GetWalletKey { old_node_id, new_node_id, msg_id, origin },
                r,
            ),
            NodeDuty::ActivateNodeRewards { id, node_id, msg_id, origin } => self.rewards_post(
                after,
                RewardsCall::ActivateNodeRewards { id, node_id },
                r,
            ),
            NodeDuty::ReceivePayoutValidation { validation, msg_id, origin } => self.rewards_post(
                after,
                RewardsCall::ReceiveValidation { validation },
                r,
            ),
            NodeDuty::ProcessLostMember { name, age } => self.lost_member_post(after, name, r),
            NodeDuty::GetTransferReplicaEvents { msg_id, origin } => self.replica_events_post(
                after,
                msg_id,
                origin,
                r,
            ),
            NodeDuty::PropagateTransfer { credit_proof, msg_id, origin } => self.record_duty_post(
                after,
                credit_proof@,
                true,
                msg_id,
                origin,
                r,
            ),
            NodeDuty::RegisterSectionPayout { debit_agreement, msg_id, origin } => self.record_duty_post(
                after,
                debit_agreement@,
                false,
                msg_id,
                origin,
                r,
            ),
            NodeDuty::ValidateSectionPayout { signed_transfer, msg_id, origin } => self.validate_duty_post(
                after,
                signed_transfer.sender@,
                signed_transfer.credit@,
                signed_transfer.actor_signature@,
                msg_id,
                origin,
                r,
            ),
            NodeDuty::ReadChunk { read, msg_id, origin, requester } => self.read_chunk_post(
                after,
                read,
                msg_id,
                origin,
                requester,
                r,
            ),
            NodeDuty::WriteChunk { write, msg_id, origin, requester } => self.write_chunk_post(
                after,
                write,
                msg_id,
                origin,
                requester,
                r,
            ),
            NodeDuty::ProcessRead { query, id, origin } => self.process_read_post(
                after,
                query,
                id,
                origin,
                r,
            ),
            NodeDuty::ProcessWrite { cmd, id, origin } => self.process_write_post(
                after,
                cmd,
                id,
                origin,
                r,
            ),
            NodeDuty::GetSectionElders { msg_id, origin } => self.outside_post(
                after,
                OutsideWork::GetSectionElders { msg_id, origin },
                r,
            ),
            NodeDuty::Send(action) => self.outside_post(after, OutsideWork::Send(action), r),
            NodeDuty::SendToNodes { targets, msg } => self.outside_post(
                after,
                OutsideWork::SendToNodes { targets, msg },
                r,
            ),
            NodeDuty::LevelUp => self.level_up_post(after, r),
            NodeDuty::LevelDown => self.level_down_post(after, r),
            NodeDuty::BeginFormingGenesisSection => self.begin_genesis_post(after, r),
            NodeDuty::ReceiveGenesisProposal { credit, sig } => self.genesis_proposal_post(
                after,
                credit@,
                sig.0,
                sig.1@,
                r,
            ),
            NodeDuty::ReceiveGenesisAccumulation {
                signed_credit,
                sig,
            } => self.genesis_accumulation_post(
                after,
                signed_credit.credit@,
                signed_credit.actor_signature@,
                sig.0,
                sig.1@,
                r,
            ),
            _ => done(r) && self.unchanged(after),
        }
    }

    fn section_key(&self) -> (r: Option<PublicKey>)
        ensures
            r == section_key_of(self.network.keys),
    {
        match &self.network.keys {
            Some(k) => Some(k.public_key),
            None => None,
        }
    }

    fn fresh_replica(&self) -> (t: Transfers)
        ensures
            self.fresh_transfers(t),
    {
        let mut chain: Vec<PublicKey> = Vec::new();
        let mut i: usize = 0;
        while i < self.network.section_chain.len()
            invariant
                i <= self.network.section_chain@.len(),
                chain@ == self.network.section_chain@.take(i as int),
            decreases self.network.section_chain@.len() - i,
        {
            chain.push(self.network.section_chain[i]);
            proof {
                assert(self.network.section_chain@.take(i as int + 1)
                    =~= self.network.section_chain@.take(i as int).push(
                    self.network.section_chain@[i as int],
                ));
            }
            i += 1;
        }
        proof {
            assert(self.network.section_chain@.take(self.network.section_chain@.len() as int)
                =~= self.network.section_chain@);
        }
        ReplicaManager::new(
            self.node_info.transfers_dir.clone(),
            self.section_key(),
            self.network.our_index,
            chain,
            self.network.byte_price,
        )
    }

    fn fresh_store(&self) -> (c: Chunks)
        ensures
            self.fresh_chunks(c),
    {
        IDataHolder::new(self.node_info.node_name, self.node_info.max_capacity)
    }

    fn become_elder(&mut self, genesis: Option<&CreditAgreementProof>) -> (r: Result<Outcome, Error>)
        requires
            old(self).wf(),
            old(self).is_adult(),
        ensures
            final(self).wf(),
            final(self).genesis_stage == old(self).genesis_stage,
            old(self).elder_post(
                final(self),
                match genesis {
                    Some(p) => Some(p@),
                    None => None,
                },
                r,
            ),
    {
        let mut transfers = self.fresh_replica();
        let ghost fresh = transfers;
        let ghost mut answer: Result<bool, Error> = Ok(true);
        match genesis {
            Some(p) => {
                let res = transfers.receive_propagated(p);
                proof {
                    answer = res;
                }
                match res {
                    Err(e) => {
                        proof {
                            assert(old(self).promotion(
                                self,
                                Some(p@),
                                fresh,
                                transfers,
                                answer,
                                Err(e),
                            ));
                        }
                        return Err(e);
                    },
                    Ok(_) => {},
                }
            },
            None => {},
        }
        let adults = copy_names(&self.network.adults);
        let ghost installed = transfers;
        self.meta_data = Some(IDataHandler::new(self.node_info.node_name, adults));
        self.transfers = Some(transfers);
        self.section_funds = Some(SectionFunds::Rewarding(RewardPayout {  }));
        let none: Vec<NodeDuty> = Vec::new();
        let r = Ok(Outcome::Duties(none));
        proof {
            assert(old(self).promoted(self, installed));
            assert(old(self).promotion(
                self,
                match genesis {
                    Some(p) => Some(p@),
                    None => None,
                },
                fresh,
                installed,
                answer,
                r,
            ));
        }
        r
    }

    fn level_up(&mut self) -> (r: Result<Outcome, Error>)
        requires
            old(self).wf(),
        ensures
            final(self).wf(),
            old(self).level_up_post(final(self), r),
    {
        if self.chunks.is_none() {
            self.chunks = Some(self.fresh_store());
            let none: Vec<NodeDuty> = Vec::new();
            Ok(Outcome::Duties(none))
        } else if self.meta_data.is_none() {
            self.become_elder(None)
        } else {
            let none: Vec<NodeDuty> = Vec::new();
            Ok(Outcome::Duties(none))
        }
    }

    fn level_down(&mut self) -> (r: Result<Outcome, Error>)
        requires
            old(self).wf(),
        ensures
            final(self).wf(),
            old(self).level_down_post(final(self), r),
    {
        self.meta_data = None;
        self.transfers = None;
        self.section_funds = None;
        self.genesis_stage = GenesisStage::NotStarted;
        if self.chunks.is_none() {
            self.chunks = Some(self.fresh_store());
        }
        let none: Vec<NodeDuty> = Vec::new();
        Ok(Outcome::Duties(none))
    }

    fn send_all(actions: Vec<Action>) -> (r: Result<Outcome, Error>)
        ensures
            sends_all(r, actions@),
    {
        let mut rest = actions;
        let mut duties: Vec<NodeDuty> = Vec::new();
        while rest.len() > 0
            invariant
                rest@.len() + duties@.len() == actions@.len(),
                forall|i: int| 0 <= i < rest@.len() ==> rest@[i] == actions@[i],
                forall|i: int|
                    0 <= i < duties@.len() ==> (#[trigger] duties@[i] matches NodeDuty::Send(given)
                        && given == actions@[rest@.len() + i]),
            decreases rest@.len(),
        {
            let ghost d0 = duties@;
            let a = rest.pop().unwrap();
            duties.insert(0, NodeDuty::Send(a));
            proof {
                assert forall|i: int| 0 <= i < duties@.len() implies (
                #[trigger] duties@[i] matches NodeDuty::Send(given) && given == actions@[rest@.len()
                    + i]) by {
                    if i > 0 {
                        assert(duties@[i] == d0[i - 1]);
                    }
                }
            }
        }
        Ok(Outcome::Duties(duties))
    }

    fn send_one(action: Option<Action>) -> (r: Result<Outcome, Error>)
        ensures
            sends_action(r, action),
    {
        let mut duties: Vec<NodeDuty> = Vec::new();
        match action {
            Some(a) => duties.push(NodeDuty::Send(a)),
            None => {},
        }
        Ok(Outcome::Duties(duties))
    }

    fn answer(&self, origin: SrcLocation, msg_id: MessageId, response: Response) -> (r: Result<
        Outcome,
        Error,
    >)
        ensures
            answers_origin(r, self.node_info.node_name, origin, msg_id, response),
    {
        let action = Action::RespondToClientHandlers {
            sender: self.node_info.node_name,
            rpc: Rpc::Response {
                response,
                requester: PublicId::Node(origin.name()),
                message_id: msg_id,
                request_proof: None,
            },
        };
        let mut duties: Vec<NodeDuty> = Vec::new();
        duties.push(NodeDuty::Send(action));
        Ok(Outcome::Duties(duties))
    }

    fn take_stage(&mut self) -> (stage: GenesisStage)
        ensures
            stage == old(self).genesis_stage,
            old(self).same_but_stage(final(self)),
    {
        let mut stage = GenesisStage::NotStarted;
        core::mem::swap(&mut self.genesis_stage, &mut stage);
        stage
    }

    fn after_step(res: Result<Option<GenesisRequest>, Error>) -> (r: Result<Outcome, Error>)
        ensures
            follows(r, res),
    {
        match res {
            Ok(Some(q)) => Ok(Outcome::Outside(OutsideWork::Genesis(q))),
            Ok(None) => {
                let none: Vec<NodeDuty> = Vec::new();
                Ok(Outcome::Duties(none))
            },
            Err(e) => Err(e),
        }
    }

    fn genesis_keys(&self) -> (r: Result<Option<&SectionKeys>, Error>)
        ensures
            match r {
                Ok(Some(k)) => self.is_adult() && self.network.keys == Some(*k),
                Ok(None) => self.is_elder(),
                Err(e) => !self.is_elder() && if !self.is_adult() {
                    e == Error::InvalidOperation
                } else {
                    self.network.keys is None && e == Error::NoSuchKey
                },
            },
    {
        let adult = self.chunks.is_some() && self.meta_data.is_none() && self.transfers.is_none()
            && self.section_funds.is_none();
        let elder = self.chunks.is_some() && self.meta_data.is_some() && self.transfers.is_some()
            && self.section_funds.is_some();
        if elder {
            Ok(None)
        } else if !adult {
            Err(Error::InvalidOperation)
        } else {
            match &self.network.keys {
                Some(k) => Ok(Some(k)),
                None => Err(Error::NoSuchKey),
            }
        }
    }

    fn call_rewards(&mut self, call: RewardsCall) -> (r: Result<Outcome, Error>)
        ensures
            old(self).rewards_post(final(self), call, r),
            old(self).unchanged(final(self)),
    {
        let _ = self.get_rewards()?;
        Ok(Outcome::Outside(OutsideWork::Rewards(call)))
    }

    fn lost_member(&mut self, name: XorName) -> (r: Result<Outcome, Error>)
        requires
            old(self).wf(),
        ensures
            final(self).wf(),
            old(self).lost_member_post(final(self), name, r),
    {
        match &mut self.meta_data {
            None => {
                let none: Vec<NodeDuty> = Vec::new();
                Ok(Outcome::Duties(none))
            },
            Some(m) => {
                match m.trigger_data_copy_process(name) {
                    Some(actions) => {
                        let ghost witness = actions;
                        let r = Self::send_all(actions);
                        proof {
                            assert(sends_all(r, witness@));
                        }
                        r
                    },
                    None => {
                        let none: Vec<NodeDuty> = Vec::new();
                        Ok(Outcome::Duties(none))
                    },
                }
            },
        }
    }

    fn replica_events(&mut self, msg_id: MessageId, origin: SrcLocation) -> (r: Result<
        Outcome,
        Error,
    >)
        requires
            old(self).wf(),
        ensures
            final(self).wf(),
            old(self).replica_events_post(final(self), msg_id, origin, r),
    {
        let events = {
            let transfers = self.get_transfers()?;
            match transfers.section_key {
                Some(k) => transfers.get_all(&k),
                None => {
                    let none: Vec<Vec<u8>> = Vec::new();
                    proof {
                        assert(byte_strings(none@) =~= Seq::<Seq<u8>>::empty());
                    }
                    none
                },
            }
        };
        let ghost witness = events;
        let r = self.answer(origin, msg_id, Response::ReplicaEvents(events));
        proof {
            assert(byte_strings(witness@) == byte_strings(witness@));
        }
        r
    }

    fn record_duty(
        &mut self,
        credit_proof: &CreditAgreementProof,
        propagated: bool,
        msg_id: MessageId,
        origin: SrcLocation,
    ) -> (r: Result<Outcome, Error>)
        requires
            old(self).wf(),
        ensures
            final(self).wf(),
            old(self).record_duty_post(final(self), credit_proof@, propagated, msg_id, origin, r),
    {
        let res = {
            let transfers = self.get_transfers()?;
            if propagated {
                transfers.receive_propagated(credit_proof)
            } else {
                transfers.register(credit_proof)
            }
        };
        let plain_res = match res {
            Ok(_) => Ok(()),
            Err(e) => Err(e),
        };
        let r = self.answer(origin, msg_id, Response::Mutation(plain_res));
        proof {
            assert(old(self).transfers->Some_0.record_post(
                &self.transfers->Some_0,
                credit_proof@,
                propagated,
                res,
            ));
        }
        r
    }

    fn validate_duty(
        &mut self,
        signed_transfer: crate::transfers::events::SignedTransfer,
        msg_id: MessageId,
        origin: SrcLocation,
    ) -> (r: Result<Outcome, Error>)
        requires
            old(self).wf(),
        ensures
            final(self).wf(),
            old(self).validate_duty_post(
                final(self),
                signed_transfer.sender@,
                signed_transfer.credit@,
                signed_transfer.actor_signature@,
                msg_id,
                origin,
                r,
            ),
    {
        let res = {
            let transfers = self.get_transfers()?;
            transfers.validate(signed_transfer)
        };
        let plain_res = match res {
            Ok(_) => Ok(()),
            Err(e) => Err(e),
        };
        let r = self.answer(origin, msg_id, Response::Mutation(plain_res));
        proof {
            assert(old(self).transfers->Some_0.validate_post(
                &self.transfers->Some_0,
                signed_transfer.sender@,
                signed_transfer.credit@,
                signed_transfer.actor_signature@,
                res,
            ));
        }
        r
    }

    fn read_chunk(
        &mut self,
        read: ChunkAddress,
        msg_id: MessageId,
        origin: SrcLocation,
        requester: PublicId,
    ) -> (r: Result<Outcome, Error>)
        requires
            old(self).wf(),
        ensures
            final(self).wf(),
            old(self).read_chunk_post(final(self), read, msg_id, origin, requester, r),
    {
        let action = {
            let chunks = self.get_chunks()?;
            chunks.get_idata(origin, read, requester, msg_id)
        };
        let ghost witness = action;
        let r = Self::send_one(action);
        proof {
            assert(sends_action(r, witness));
        }
        r
    }

    fn write_chunk(
        &mut self,
        write: ChunkWrite,
        msg_id: MessageId,
        origin: SrcLocation,
        requester: PublicId,
    ) -> (r: Result<Outcome, Error>)
        requires
            old(self).wf(),
        ensures
            final(self).wf(),
            old(self).write_chunk_post(final(self), write, msg_id, origin, requester, r),
    {
        let action = {
            let chunks = self.get_chunks()?;
            match &write {
                ChunkWrite::New(data) => chunks.store_idata(origin, data, requester, msg_id),
                ChunkWrite::DeletePrivate(address) => chunks.delete_unpub_idata(
                    *address,
                    requester,
                    msg_id,
                ),
            }
        };
        let ghost witness = action;
        let r = Self::send_one(action);
        proof {
            assert(sends_action(r, witness));
        }
        r
    }

    fn process_read(&mut self, query: ChunkAddress, id: MessageId, origin: PublicId) -> (r: Result<
        Outcome,
        Error,
    >)
        requires
            old(self).wf(),
        ensures
            final(self).wf(),
            old(self).process_read_post(final(self), query, id, origin, r),
    {
        let action = {
            let meta_data = self.get_metadata()?;
            meta_data.handle_get_idata_req(origin, query, id)
        };
        let ghost witness = action;
        let r = Self::send_one(action);
        proof {
            assert(sends_action(r, witness));
        }
        r
    }

    fn process_write(&mut self, cmd: ChunkWrite, id: MessageId, origin: PublicId) -> (r: Result<
        Outcome,
        Error,
    >)
        requires
            old(self).wf(),
        ensures
            final(self).wf(),
            old(self).process_write_post(final(self), cmd, id, origin, r),
    {
        let action = {
            let meta_data = self.get_metadata()?;
            match cmd {
                ChunkWrite::New(data) => meta_data.handle_put_idata_req(origin, data, id),
                ChunkWrite::DeletePrivate(address) => meta_data.handle_delete_unpub_idata_req(
                    origin,
                    address,
                    id,
                ),
            }
        };
        let ghost witness = action;
        let r = Self::send_one(action);
        proof {
            assert(sends_action(r, witness));
        }
        r
    }

    fn skip_genesis(&self, e: Option<Error>) -> (r: Result<Outcome, Error>)
        requires
            match e {
                None => self.is_elder(),
                Some(e) => !self.is_elder() && if !self.is_adult() {
                    e == Error::InvalidOperation
                } else {
                    self.network.keys is None && e == Error::NoSuchKey
                },
            },
        ensures
            self.genesis_skipped(self, r),
            self.genesis_gate(self, r) is None,
    {
        match e {
            None => {
                let none: Vec<NodeDuty> = Vec::new();
                Ok(Outcome::Duties(none))
            },
            Some(e) => Err(e),
        }
    }

    fn begin_genesis(&mut self) -> (r: Result<Outcome, Error>)
        requires
            old(self).wf(),
        ensures
            final(self).wf(),
            old(self).begin_genesis_post(final(self), r),
    {
        match self.genesis_keys() {
            Ok(None) => {
                return self.skip_genesis(None);
            },
            Err(e) => {
                return self.skip_genesis(Some(e));
            },
            Ok(Some(_)) => {},
        }
        let stage = self.take_stage();
        let (next, res) = match &self.network.keys {
            Some(keys) => begin_forming_genesis_section(keys, stage),
            None => (stage, Err(Error::NoSuchKey)),
        };
        self.genesis_stage = next;
        let ghost witness = res;
        let r = Self::after_step(res);
        proof {
            assert(follows(r, witness));
        }
        r
    }

    fn genesis_proposal(
        &mut self,
        credit: crate::transfers::events::Credit,
        sig: crate::node::genesis_stage::SignatureIndexShare,
    ) -> (r: Result<Outcome, Error>)
        requires
            old(self).wf(),
        ensures
            final(self).wf(),
            old(self).genesis_proposal_post(final(self), credit@, sig.0, sig.1@, r),
    {
        match self.genesis_keys() {
            Ok(None) => {
                return self.skip_genesis(None);
            },
            Err(e) => {
                return self.skip_genesis(Some(e));
            },
            Ok(Some(_)) => {},
        }
        let stage = self.take_stage();
        let (next, res) = match &self.network.keys {
            Some(keys) => receive_genesis_proposal(credit, sig, stage, keys),
            None => (stage, Err(Error::NoSuchKey)),
        };
        self.genesis_stage = next;
        let ghost witness = res;
        let r = Self::after_step(res);
        proof {
            assert(follows(r, witness));
        }
        r
    }

    fn genesis_accumulation(
        &mut self,
        signed_credit: crate::transfers::events::SignedCredit,
        sig: crate::node::genesis_stage::SignatureIndexShare,
    ) -> (r: Result<Outcome, Error>)
        requires
            old(self).wf(),
        ensures
            final(self).wf(),
            old(self).genesis_accumulation_post(
                final(self),
                signed_credit.credit@,
                signed_credit.actor_signature@,
                sig.0,
                sig.1@,
                r,
            ),
    {
        match self.genesis_keys() {
            Ok(None) => {
                return self.skip_genesis(None);
            },
            Err(e) => {
                return self.skip_genesis(Some(e));
            },
            Ok(Some(_)) => {},
        }
        let stage = self.take_stage();
        let (next, res) = match &self.network.keys {
            Some(keys) => receive_genesis_accumulation(signed_credit, sig, stage, keys),
            None => (stage, Err(Error::NoSuchKey)),
        };
        self.genesis_stage = next;
        let ghost witness = res;
        let ghost mid = *self;
        let genesis = match &self.genesis_stage {
            GenesisStage::Completed(p) => Some(p.duplicate()),
            _ => None,
        };
        match genesis {
            Some(p) => {
                let r = self.become_elder(Some(&p));
                proof {
                    let (fresh, t, answer) = choose|
                        fresh: Transfers,
                        t: Transfers,
                        answer: Result<bool, Error>,
                    | #[trigger] mid.promotion(self, Some(p@), fresh, t, answer, r);
                    assert(old(self).promotion(self, Some(p@), fresh, t, answer, r));
                    assert(old(self).accumulation_step(
                        self,
                        old(self).network.keys->Some_0,
                        signed_credit.credit@,
                        signed_credit.actor_signature@,
                        sig.0,
                        sig.1@,
                        witness,
                        r,
                    ));
                }
                r
            },
            None => {
                let r = Self::after_step(res);
                proof {
                    assert(follows(r, witness));
                    assert(old(self).accumulation_step(
                        self,
                        old(self).network.keys->Some_0,
                        signed_credit.credit@,
                        signed_credit.actor_signature@,
                        sig.0,
                        sig.1@,
                        witness,
                        r,
                    ));
                }
                r
            },
        }
    }

    /// Carries out one duty. What the node can do itself it does, and the
    /// duties that follow come back. What only the overlay or a part
    /// outside this library can do comes back as work for the outside. A
    /// duty for a part that the node does not have is refused.
    pub fn handle(&mut self, duty: NodeDuty) -> (r: Result<Outcome, Error>)
        requires
            old(self).wf(),
        ensures
            final(self).wf(),
            old(self).handle_post(final(self), duty, r),
    {
        match duty {
            NodeDuty::SetNodeWallet { wallet_id, node_id, msg_id, origin } => self.call_rewards(
                RewardsCall::SetNodeWallet { node_id, wallet_id },
            ),
            NodeDuty::GetNodeWalletKey {
                old_node_id,
                new_node_id,
                msg_id,
                origin,
            } => self.call_rewards(
                RewardsCall::GetWalletKey { old_node_id, new_node_id, msg_id, origin },
            ),
            NodeDuty::ActivateNodeRewards { id, node_id, msg_id, origin } => self.call_rewards(
                RewardsCall::ActivateNodeRewards { id, node_id },
            ),
            NodeDuty::ReceivePayoutValidation { validation, msg_id, origin } => self.call_rewards(
                RewardsCall::ReceiveValidation { validation },
            ),
            NodeDuty::ProcessLostMember { name, age } => self.lost_member(name),
            NodeDuty::GetTransferReplicaEvents { msg_id, origin } => self.replica_events(
                msg_id,
                origin,
            ),
            NodeDuty::PropagateTransfer { credit_proof, msg_id, origin } => self.record_duty(
                &credit_proof,
                true,
                msg_id,
                origin,
            ),
            NodeDuty::RegisterSectionPayout { debit_agreement, msg_id, origin } => self.record_duty(
                &debit_agreement,
                false,
                msg_id,
                origin,
            ),
            NodeDuty::ValidateSectionPayout { signed_transfer, msg_id, origin } => self.validate_duty(
                signed_transfer,
                msg_id,
                origin,
            ),
            NodeDuty::ReadChunk { read, msg_id, origin, requester } => self.read_chunk(
                read,
                msg_id,
                origin,
                requester,
            ),
            NodeDuty::WriteChunk { write, msg_id, origin, requester } => self.write_chunk(
                write,
                msg_id,
                origin,
                requester,
            ),
            NodeDuty::ProcessRead { query, id, origin } => self.process_read(query, id, origin),
            NodeDuty::ProcessWrite { cmd, id, origin } => self.process_write(cmd, id, origin),
            NodeDuty::GetSectionElders { msg_id, origin } => Ok(
                Outcome::Outside(OutsideWork::GetSectionElders { msg_id, origin }),
            ),
            NodeDuty::Send(action) => Ok(Outcome::Outside(OutsideWork::Send(action))),
            NodeDuty::SendToNodes { targets, msg } => Ok(
                Outcome::Outside(OutsideWork::SendToNodes { targets, msg }),
            ),
            NodeDuty::LevelUp => self.level_up(),
            NodeDuty::LevelDown => self.level_down(),
            NodeDuty::BeginFormingGenesisSection => self.begin_genesis(),
            NodeDuty::ReceiveGenesisProposal { credit, sig } => self.genesis_proposal(credit, sig),
            NodeDuty::ReceiveGenesisAccumulation { signed_credit, sig } => self.genesis_accumulation(
                signed_credit,
                sig,
            ),
            NodeDuty::CompleteWalletTransition { .. }
            | NodeDuty::ProcessNewMember(_)
            | NodeDuty::ProcessRelocatedMember { .. }
            | NodeDuty::UpdateElderInfo { .. }
            | NodeDuty::CompleteElderChange { .. }
            | NodeDuty::InformNewElders
            | NodeDuty::CompleteTransitionToElder { .. }
            | NodeDuty::ReachingMaxCapacity
            | NodeDuty::IncrementFullNodeCount { .. }
            | NodeDuty::SwitchNodeJoin(_)
            | NodeDuty::NoOp => {
                let none: Vec<NodeDuty> = Vec::new();
                Ok(Outcome::Duties(none))
            },
        }
    }
}

/// The genesis credit is taken once: at an elder, which has completed the
/// handshake or was promoted by its section, a share of either round that
/// comes again changes nothing, the replica included, and leaves nothing to
/// do.
pub proof fn lemma_genesis_shares_change_nothing_at_an_elder(
    before: Node,
    after: Node,
    duty: NodeDuty,
    r: Result<Outcome, Error>,
)
    requires
        before.is_elder(),
        before.handle_post(&after, duty, r),
        duty is ReceiveGenesisProposal || duty is ReceiveGenesisAccumulation || duty
            is BeginFormingGenesisSection,
    ensures
        before.unchanged(&after),
        done(r),
{
}

/// The roles follow the events: promotion takes an infant to an adult and
/// an adult to an elder, and demotion takes every node to an adult that has
/// left the genesis handshake.
pub proof fn lemma_roles_follow_the_events(
    before: Node,
    after: Node,
    duty: NodeDuty,
    r: Result<Outcome, Error>,
)
    requires
        before.wf(),
        before.handle_post(&after, duty, r),
        r is Ok,
    ensures
        duty is LevelUp && before.is_infant() ==> after.spec_role() == (
        match before.genesis_stage@ {
            StageView::ProposingGenesis { .. } => NodeRole::ProposingGenesis,
            StageView::AccumulatingGenesis { .. } => NodeRole::AccumulatingGenesis,
            _ => NodeRole::Adult,
        }),
        duty is LevelUp && before.is_adult() ==> after.spec_role() == NodeRole::Elder,
        duty is LevelUp && before.is_elder() ==> after.spec_role() == NodeRole::Elder,
        duty is LevelDown ==> after.spec_role() == NodeRole::Adult,
        duty is BeginFormingGenesisSection && before.is_adult() ==> after.spec_role()
            == NodeRole::ProposingGenesis,
{
    if duty is LevelUp && before.is_adult() {
        let (fresh, t, res) = choose|fresh: Transfers, t: Transfers, res: Result<bool, Error>|
            #[trigger] before.promotion(&after, None, fresh, t, res, r);
    }
}

/// The share that completes the handshake makes the adult an elder whose
/// replica holds the genesis credit once: where the duty succeeds and the
/// handshake is complete after it, nothing is left to do, the node has the
/// parts of an elder, the proof is over the genesis credit of the section,
/// the history of the wallet of the section is that one credit as
/// propagated, and its balance is the initial supply.
pub proof fn lemma_genesis_completes(
    before: Node,
    after: Node,
    signed_credit: SignedCredit,
    sig: SignatureIndexShare,
    r: Result<Outcome, Error>,
)
    requires
        before.is_adult(),
        before.network.keys is Some,
        before.genesis_stage@ is AccumulatingGenesis,
        before.handle_post(&after, NodeDuty::ReceiveGenesisAccumulation { signed_credit, sig }, r),
        after.genesis_stage@ is Completed,
        r is Ok,
    ensures
        done(r),
        after.is_elder(),
        after.genesis_stage@->credit_proof.credit == genesis_credit(
            before.network.keys->Some_0.public_key@,
        ),
        after.transfers->Some_0.events_of(before.network.keys->Some_0.public_key@) == seq![
            EventView::TransferPropagated {
                credit_proof: after.genesis_stage@->credit_proof,
            },
        ],
        after.transfers->Some_0.balance_of(before.network.keys->Some_0.public_key@)
            == GENESIS_AMOUNT,
{
    let keys = before.network.keys->Some_0;
    let key = keys.public_key@;
    let p = after.genesis_stage@->credit_proof;
    let res = choose|res: Result<Option<GenesisRequest>, Error>| #[trigger]
        before.accumulation_step(
            &after,
            keys,
            signed_credit.credit@,
            signed_credit.actor_signature@,
            sig.0,
            sig.1@,
            res,
            r,
        );
    let (fresh, t, answer) = choose|fresh: Transfers, t: Transfers, answer: Result<bool, Error>|
        #[trigger] before.promotion(&after, Some(p), fresh, t, answer, r);
    assert(p.credit == genesis_credit(key));
    assert(fresh.events_of(key) =~= Seq::empty());
    assert(fold(Seq::<EventView>::empty()) == 0);
    let event = EventView::TransferPropagated { credit_proof: p };
    assert(t.events_of(key) =~= seq![event]);
    lemma_fold_push(Seq::empty(), event);
    assert(Seq::<EventView>::empty().push(event) =~= seq![event]);
}

} // verus!
