use tempdir::TempDir;
use threshold_crypto::{SecretKey, SecretKeySet};
use vault_core::adult::Data;
use vault_core::chunk_store::chunk_address;
use vault_core::codec::encode_request;
use vault_core::messages::{
    Action, Chunk, ChunkAddress, ChunkKind, ChunkWrite, Error, MessageId, Missing, NodeRequest,
    PublicId, PublicKey, Request, Response, Rpc, Signature, SrcLocation,
};
use vault_core::name::XorName;
use vault_core::node::genesis::{
    begin_forming_genesis_section, make_genesis_credit, receive_genesis_accumulation,
    receive_genesis_proposal, GenesisRequest, SectionKeys, GENESIS_AMOUNT,
};
use vault_core::node::genesis_stage::GenesisStage;
use vault_core::node::node_ops::{NodeDuty, NodeRole, Outcome, OutsideWork, RewardsCall};
use vault_core::node::{Network, Node, NodeInfo, SectionFunds};
use vault_core::transfers::events::{
    encode_credit, encode_signed_credit, Credit, CreditAgreementProof, SignedCredit,
};

fn name(n: u128) -> XorName {
    XorName { hi: 0, lo: n }
}

fn mid(n: u128) -> MessageId {
    MessageId(name(n))
}

fn temp_dir_text(prefix: &str) -> String {
    let dir = TempDir::new(prefix).unwrap().into_path();
    dir.to_str().unwrap().to_string()
}

fn public_chunk(bytes: Vec<u8>) -> Chunk {
    let address = chunk_address(ChunkKind::Public, &None, &bytes);
    Chunk { address, owner: None, bytes }
}

struct Section {
    secret: SecretKeySet,
    needed: usize,
}

impl Section {
    fn new(needed: usize) -> Section {
        Section { secret: SecretKeySet::random(needed - 1, &mut rand::thread_rng()), needed }
    }

    fn public_key(&self) -> PublicKey {
        PublicKey { bytes: self.secret.public_keys().public_key().to_bytes() }
    }

    fn keys(&self) -> SectionKeys {
        SectionKeys {
            public_key: self.public_key(),
            key_set: bincode::serialize(&self.secret.public_keys()).unwrap(),
            threshold: self.needed,
        }
    }

    fn share(&self, index: u64, bytes: &[u8]) -> (u64, Signature) {
        let share = self.secret.secret_key_share(index as usize).sign(bytes);
        (index, Signature { bytes: share.to_bytes() })
    }

    fn proposal_share(&self, index: u64) -> (u64, Signature) {
        let mut bytes = Vec::new();
        encode_credit(&mut bytes, &make_genesis_credit(&self.public_key()));
        self.share(index, &bytes)
    }

    fn network(&self) -> Network {
        Network {
            keys: Some(self.keys()),
            our_index: 0,
            adults: vec![name(16), name(32)],
            section_chain: vec![self.public_key()],
            byte_price: 1,
        }
    }
}

fn infant(section: &Section) -> Node {
    let info = NodeInfo { node_name: name(1000), transfers_dir: temp_dir_text("transfers"), max_capacity: 100 };
    Node::new(info, section.network())
}

fn duties(outcome: Result<Outcome, Error>) -> Vec<NodeDuty> {
    match outcome {
        Ok(Outcome::Duties(d)) => d,
        other => panic!("unexpected outcome {:?}", other),
    }
}

fn done(outcome: Result<Outcome, Error>) {
    assert_eq!(duties(outcome).len(), 0);
}

fn genesis_request(outcome: Result<Outcome, Error>) -> GenesisRequest {
    match outcome {
        Ok(Outcome::Outside(OutsideWork::Genesis(q))) => q,
        other => panic!("unexpected outcome {:?}", other),
    }
}

#[test]
fn the_genesis_credit_is_the_same_at_every_elder() {
    let section = Section::new(5);
    let credit = make_genesis_credit(&section.public_key());
    assert_eq!(credit.id, name(0));
    assert_eq!(credit.amount, GENESIS_AMOUNT);
    assert_eq!(GENESIS_AMOUNT, u32::MAX as u64 * 1_000_000_000);
    assert_eq!(credit.recipient.bytes, section.public_key().bytes);
    assert_eq!(credit.msg, b"genesis".to_vec());
}

#[test]
fn genesis_round_trip() {
    let section = Section::new(5);
    let mut elder = infant(&section);
    assert_eq!(elder.role(), NodeRole::Infant);
    done(elder.handle(NodeDuty::LevelUp));
    assert_eq!(elder.role(), NodeRole::Adult);

    match genesis_request(elder.handle(NodeDuty::BeginFormingGenesisSection)) {
        GenesisRequest::SignProposal(c) => assert_eq!(c.amount, GENESIS_AMOUNT),
        other => panic!("unexpected request {:?}", other),
    }
    assert_eq!(elder.role(), NodeRole::ProposingGenesis);

    // five of the seven proposal shares reach the elder
    let mut signed_credit = None;
    for i in [6u64, 0, 3, 1, 5] {
        let duty = NodeDuty::ReceiveGenesisProposal {
            credit: make_genesis_credit(&section.public_key()),
            sig: section.proposal_share(i),
        };
        let outcome = elder.handle(duty);
        if i == 5 {
            match genesis_request(outcome) {
                GenesisRequest::SignAccumulation(c) => signed_credit = Some(c),
                other => panic!("unexpected request {:?}", other),
            }
        } else {
            done(outcome);
            assert_eq!(elder.role(), NodeRole::ProposingGenesis);
        }
    }
    assert_eq!(elder.role(), NodeRole::AccumulatingGenesis);
    let signed_credit = signed_credit.unwrap();
    let mut credit_bytes = Vec::new();
    encode_credit(&mut credit_bytes, &signed_credit.credit);
    let section_key = threshold_crypto::PublicKey::from_bytes(&section.public_key().bytes).unwrap();
    let actor = threshold_crypto::Signature::from_bytes(&signed_credit.actor_signature.bytes).unwrap();
    assert!(section_key.verify(&actor, &credit_bytes));

    // five accumulation shares reach the elder
    let signed_bytes = encode_signed_credit(&signed_credit);
    let accumulation = |i: u64| NodeDuty::ReceiveGenesisAccumulation {
        signed_credit: SignedCredit {
            credit: signed_credit.credit.duplicate(),
            actor_signature: signed_credit.actor_signature,
        },
        sig: section.share(i, &signed_bytes),
    };
    for i in [2u64, 4, 0, 6] {
        done(elder.handle(accumulation(i)));
        assert_eq!(elder.role(), NodeRole::AccumulatingGenesis);
    }
    done(elder.handle(accumulation(1)));
    assert_eq!(elder.role(), NodeRole::Elder);
    assert!(matches!(elder.genesis_stage, GenesisStage::Completed(_)));
    assert!(matches!(elder.section_funds, Some(SectionFunds::Rewarding(_))));
    let replica = elder.transfers.as_ref().unwrap();
    assert_eq!(replica.balance(&section.public_key()), GENESIS_AMOUNT);
    assert_eq!(replica.get_all(&section.public_key()).len(), 1);
    assert_eq!(replica.get_all(&section.public_key())[0][0], 2);

    // shares that come again, of either round, change nothing
    for i in [1u64, 2, 3, 5] {
        done(elder.handle(accumulation(i)));
        done(elder.handle(NodeDuty::ReceiveGenesisProposal {
            credit: make_genesis_credit(&section.public_key()),
            sig: section.proposal_share(i),
        }));
    }
    assert_eq!(elder.role(), NodeRole::Elder);
    let replica = elder.transfers.as_ref().unwrap();
    assert_eq!(replica.balance(&section.public_key()), GENESIS_AMOUNT);
    assert_eq!(replica.get_all(&section.public_key()).len(), 1);
}

#[test]
fn a_share_of_one_key_share_counts_once() {
    let section = Section::new(3);
    let keys = section.keys();
    let credit = || make_genesis_credit(&section.public_key());
    let (stage, r) = begin_forming_genesis_section(&keys, GenesisStage::NotStarted);
    assert!(matches!(r, Ok(Some(GenesisRequest::SignProposal(_)))));
    let (stage, r) = receive_genesis_proposal(credit(), section.proposal_share(0), stage, &keys);
    assert!(matches!(r, Ok(None)));
    let (stage, r) = receive_genesis_proposal(credit(), section.proposal_share(0), stage, &keys);
    assert!(matches!(r, Ok(None)));
    let (stage, r) = receive_genesis_proposal(credit(), section.proposal_share(1), stage, &keys);
    assert!(matches!(r, Ok(None)));
    match &stage {
        GenesisStage::ProposingGenesis(p) => {
            let indices: Vec<u64> = p.signatures.iter().map(|s| s.0).collect();
            assert_eq!(indices, vec![0, 1]);
        }
        other => panic!("unexpected stage {:?}", other),
    }
    let (stage, r) = receive_genesis_proposal(credit(), section.proposal_share(2), stage, &keys);
    assert!(matches!(r, Ok(Some(GenesisRequest::SignAccumulation(_)))));
    assert!(matches!(stage, GenesisStage::AccumulatingGenesis(_)));
    // beginning again is refused
    let (stage, r) = begin_forming_genesis_section(&keys, stage);
    assert_eq!(r.err(), Some(Error::InvalidOperation));
    assert!(matches!(stage, GenesisStage::AccumulatingGenesis(_)));
}

#[test]
fn shares_stand_by_key_share_however_they_come() {
    let section = Section::new(4);
    let keys = section.keys();
    let credit = || make_genesis_credit(&section.public_key());
    let indices = |stage: &GenesisStage| -> Vec<u64> {
        match stage {
            GenesisStage::ProposingGenesis(p) => p.signatures.iter().map(|s| s.0).collect(),
            other => panic!("unexpected stage {:?}", other),
        }
    };
    let (stage, _) = begin_forming_genesis_section(&keys, GenesisStage::NotStarted);
    let (stage, r) = receive_genesis_proposal(credit(), section.proposal_share(5), stage, &keys);
    assert!(matches!(r, Ok(None)));
    let (stage, r) = receive_genesis_proposal(credit(), section.proposal_share(2), stage, &keys);
    assert!(matches!(r, Ok(None)));
    assert_eq!(indices(&stage), vec![2, 5]);
    let (stage, r) = receive_genesis_proposal(credit(), section.proposal_share(3), stage, &keys);
    assert!(matches!(r, Ok(None)));
    assert_eq!(indices(&stage), vec![2, 3, 5]);
    // the share that comes again takes the place of the one that was there
    let mut other = section.proposal_share(3);
    other.1 = section.proposal_share(7).1;
    let (stage, r) = receive_genesis_proposal(credit(), other, stage, &keys);
    assert!(matches!(r, Ok(None)));
    assert_eq!(indices(&stage), vec![2, 3, 5]);
    match &stage {
        GenesisStage::ProposingGenesis(p) => {
            assert_eq!(p.signatures[1].1.bytes, section.proposal_share(7).1.bytes)
        }
        other => panic!("unexpected stage {:?}", other),
    }
    let (stage, r) = receive_genesis_proposal(credit(), section.proposal_share(3), stage, &keys);
    assert!(matches!(r, Ok(None)));
    // the fourth share completes the round with the signature of the section
    let (stage, r) = receive_genesis_proposal(credit(), section.proposal_share(0), stage, &keys);
    match (stage, r) {
        (GenesisStage::AccumulatingGenesis(a), Ok(Some(GenesisRequest::SignAccumulation(signed)))) => {
            let mut bytes = Vec::new();
            encode_credit(&mut bytes, &credit());
            let shares: Vec<(u64, threshold_crypto::SignatureShare)> = [0u64, 2, 3, 5]
                .iter()
                .map(|i| (*i, section.secret.secret_key_share(*i as usize).sign(&bytes)))
                .collect();
            let section_signature = section
                .secret
                .public_keys()
                .combine_signatures(shares.iter().map(|(i, s)| (*i, s)))
                .unwrap();
            assert!(section.secret.public_keys().public_key().verify(&section_signature, &bytes));
            assert_eq!(signed.actor_signature.bytes, section_signature.to_bytes());
            assert_eq!(a.agreed_proposal.actor_signature.bytes, section_signature.to_bytes());
        }
        other => panic!("unexpected outcome {:?}", other),
    }
}

#[test]
fn a_share_over_another_credit_is_refused() {
    let section = Section::new(3);
    let keys = section.keys();
    let (stage, _) = begin_forming_genesis_section(&keys, GenesisStage::NotStarted);
    let mut other = make_genesis_credit(&section.public_key());
    other.amount = 1;
    let (stage, r) = receive_genesis_proposal(other, section.proposal_share(0), stage, &keys);
    assert_eq!(r.err(), Some(Error::InvalidOperation));
    match &stage {
        GenesisStage::ProposingGenesis(p) => assert_eq!(p.signatures.len(), 0),
        other => panic!("unexpected stage {:?}", other),
    }
    // a signed credit that the section did not sign
    let forged = SignedCredit {
        credit: make_genesis_credit(&section.public_key()),
        actor_signature: Signature { bytes: SecretKey::random().sign(b"x").to_bytes() },
    };
    let (stage, r) = receive_genesis_accumulation(forged, section.share(0, b"y"), stage, &keys);
    assert_eq!(r.err(), Some(Error::InvalidSignature));
    assert!(matches!(stage, GenesisStage::ProposingGenesis(_)));
    // a node that has not begun refuses a share of round two
    let forged = SignedCredit {
        credit: make_genesis_credit(&section.public_key()),
        actor_signature: Signature { bytes: [0; 96] },
    };
    let (_, r) = receive_genesis_accumulation(forged, section.share(0, b"y"), GenesisStage::NotStarted, &keys);
    assert_eq!(r.err(), Some(Error::InvalidOperation));
}

#[test]
fn shares_that_do_not_combine_are_refused() {
    let section = Section::new(3);
    let mut keys = section.keys();
    // the node believes that two shares combine, the key set wants three
    keys.threshold = 2;
    let credit = || make_genesis_credit(&section.public_key());
    let (stage, _) = begin_forming_genesis_section(&keys, GenesisStage::NotStarted);
    let (stage, _) = receive_genesis_proposal(credit(), section.proposal_share(0), stage, &keys);
    let (stage, r) = receive_genesis_proposal(credit(), section.proposal_share(1), stage, &keys);
    assert_eq!(r.err(), Some(Error::CouldNotCombineSignatures));
    match &stage {
        GenesisStage::ProposingGenesis(p) => assert_eq!(p.signatures.len(), 1),
        other => panic!("unexpected stage {:?}", other),
    }
}

#[test]
fn bytes_that_are_no_key_set_combine_nothing() {
    let section = Section::new(2);
    let credit = || make_genesis_credit(&section.public_key());
    let good = section.keys().key_set;
    let mut long = good.clone();
    long.push(0);
    let mut lying = good.clone();
    lying[0] = 3;
    for key_set in [vec![0u8; 8], Vec::new(), vec![1u8; 7], good[..good.len() - 1].to_vec(), long, lying] {
        let keys = SectionKeys { public_key: section.public_key(), key_set, threshold: 2 };
        let (stage, _) = begin_forming_genesis_section(&keys, GenesisStage::NotStarted);
        let (stage, r) = receive_genesis_proposal(credit(), section.proposal_share(0), stage, &keys);
        assert!(matches!(r, Ok(None)));
        let (stage, r) = receive_genesis_proposal(credit(), section.proposal_share(1), stage, &keys);
        assert_eq!(r.err(), Some(Error::CouldNotCombineSignatures));
        match &stage {
            GenesisStage::ProposingGenesis(p) => assert_eq!(p.signatures.len(), 1),
            other => panic!("unexpected stage {:?}", other),
        }
    }
    assert_eq!(good.len(), 8 + 48 * 2);
    assert!(vault_core::crypto::has_key_set_shape(&good));
    assert!(!vault_core::crypto::has_key_set_shape(&[0u8; 8]));
}

#[test]
fn an_elder_that_was_overtaken_joins_round_two() {
    let section = Section::new(2);
    let keys = section.keys();
    let credit = make_genesis_credit(&section.public_key());
    let mut bytes = Vec::new();
    encode_credit(&mut bytes, &credit);
    let shares: std::collections::BTreeMap<usize, threshold_crypto::SignatureShare> =
        (0..2).map(|i| (i, section.secret.secret_key_share(i).sign(&bytes))).collect();
    let actor = section.secret.public_keys().combine_signatures(&shares).unwrap();
    let signed = || SignedCredit {
        credit: make_genesis_credit(&section.public_key()),
        actor_signature: Signature { bytes: actor.to_bytes() },
    };
    let signed_bytes = encode_signed_credit(&signed());
    let (stage, _) = begin_forming_genesis_section(&keys, GenesisStage::NotStarted);
    let (stage, r) = receive_genesis_accumulation(signed(), section.share(1, &signed_bytes), stage, &keys);
    assert!(matches!(r, Ok(Some(GenesisRequest::SignAccumulation(_)))));
    assert!(matches!(stage, GenesisStage::AccumulatingGenesis(_)));
    let (stage, r) = receive_genesis_accumulation(signed(), section.share(0, &signed_bytes), stage, &keys);
    assert!(matches!(r, Ok(None)));
    match stage {
        GenesisStage::Completed(p) => {
            let key = threshold_crypto::PublicKey::from_bytes(&p.debiting_replicas_keys.bytes).unwrap();
            let sig = threshold_crypto::Signature::from_bytes(&p.debiting_replicas_sig.bytes).unwrap();
            assert!(key.verify(&sig, &signed_bytes));
        }
        other => panic!("unexpected stage {:?}", other),
    }
}

#[test]
fn the_roles_follow_the_events() {
    let section = Section::new(2);
    let mut node = infant(&section);
    // an infant has no part
    assert_eq!(
        node.handle(NodeDuty::ReadChunk {
            read: ChunkAddress { kind: ChunkKind::Public, name: name(1) },
            msg_id: mid(1),
            origin: SrcLocation::Section(name(1)),
            requester: PublicId::Client(name(9)),
        })
        .err(),
        Some(Error::Missing(Missing::Chunks))
    );
    assert_eq!(node.handle(NodeDuty::BeginFormingGenesisSection).err(), Some(Error::InvalidOperation));
    done(node.handle(NodeDuty::LevelUp));
    assert_eq!(node.role(), NodeRole::Adult);
    assert!(node.get_chunks().is_ok());
    assert_eq!(node.get_metadata().err(), Some(Error::Missing(Missing::Metadata)));
    assert_eq!(node.get_transfers().err(), Some(Error::Missing(Missing::Transfers)));
    assert_eq!(node.get_rewards().err(), Some(Error::Missing(Missing::SectionFunds)));
    // an existing section promotes the adult
    done(node.handle(NodeDuty::LevelUp));
    assert_eq!(node.role(), NodeRole::Elder);
    assert!(node.get_metadata().is_ok());
    assert!(node.get_transfers().is_ok());
    assert!(node.get_rewards().is_ok());
    assert_eq!(node.meta_data.as_ref().unwrap().adults, vec![name(16), name(32)]);
    assert_eq!(node.transfers.as_ref().unwrap().balance(&section.public_key()), 0);
    done(node.handle(NodeDuty::LevelUp));
    assert_eq!(node.role(), NodeRole::Elder);
    node.section_funds = Some(SectionFunds::Churning);
    assert_eq!(node.get_rewards().err(), Some(Error::Missing(Missing::SectionFundChurn)));
    // an elder that is demoted keeps its chunks and nothing else
    let chunk = public_chunk(vec![1, 2, 3]);
    let _ = node.handle(NodeDuty::WriteChunk {
        write: ChunkWrite::New(chunk.duplicate()),
        msg_id: mid(2),
        origin: SrcLocation::Section(name(1)),
        requester: PublicId::Client(name(9)),
    });
    done(node.handle(NodeDuty::LevelDown));
    assert_eq!(node.role(), NodeRole::Adult);
    assert!(node.meta_data.is_none() && node.transfers.is_none() && node.section_funds.is_none());
    assert!(node.chunks.as_ref().unwrap().chunks.get(&chunk.address).is_ok());
    // an infant that is demoted becomes an adult with an empty store
    let mut other = infant(&section);
    done(other.handle(NodeDuty::LevelDown));
    assert_eq!(other.role(), NodeRole::Adult);
}

#[test]
fn the_words_of_a_refusal() {
    assert_eq!(Missing::Chunks.describe(), "No immutable chunks at this node");
    assert_eq!(Missing::Metadata.describe(), "No meta data at this node");
    assert_eq!(Missing::Transfers.describe(), "No transfers at this node");
    assert_eq!(Missing::SectionFunds.describe(), "No section funds at this node");
    assert_eq!(Missing::SectionFundChurn.describe(), "Section fund churn, cannot complete request.");
}

fn elder(section: &Section) -> Node {
    let mut node = infant(section);
    done(node.handle(NodeDuty::LevelUp));
    done(node.handle(NodeDuty::LevelUp));
    node
}

#[test]
fn chunk_duties_come_back_as_duties_to_send() {
    let section = Section::new(2);
    let mut node = elder(&section);
    let chunk = public_chunk(vec![1, 2, 3]);
    let origin = SrcLocation::Section(name(1));
    let requester = PublicId::Client(name(9));
    let written = duties(node.handle(NodeDuty::WriteChunk {
        write: ChunkWrite::New(chunk.duplicate()),
        msg_id: mid(1),
        origin,
        requester,
    }));
    assert_eq!(written.len(), 1);
    assert!(matches!(
        &written[0],
        NodeDuty::Send(Action::RespondToOurDataHandlers {
            rpc: Rpc::Response { response: Response::Mutation(Ok(())), .. },
            ..
        })
    ));
    let mut read = duties(node.handle(NodeDuty::ReadChunk {
        read: chunk.address,
        msg_id: mid(2),
        origin,
        requester,
    }));
    let send = read.pop().unwrap();
    assert!(matches!(
        &send,
        NodeDuty::Send(Action::RespondToOurDataHandlers {
            rpc: Rpc::Response { response: Response::GetIData(Ok(_)), .. },
            ..
        })
    ));
    // the duty to send is work for the overlay
    match node.handle(send) {
        Ok(Outcome::Outside(OutsideWork::Send(Action::RespondToOurDataHandlers { sender, .. }))) => {
            assert_eq!(sender, name(1000))
        }
        other => panic!("unexpected outcome {:?}", other),
    }
    // a client's write at the elder goes to the two adults
    let sent = duties(node.handle(NodeDuty::ProcessWrite {
        cmd: ChunkWrite::New(chunk.duplicate()),
        id: mid(3),
        origin: requester,
    }));
    match &sent[0] {
        NodeDuty::Send(Action::SendMessage { targets, .. }) => assert_eq!(targets.len(), 2),
        other => panic!("unexpected duty {:?}", other),
    }
    // a client's read of a chunk without holders is answered at once
    let answered = duties(node.handle(NodeDuty::ProcessRead {
        query: chunk.address,
        id: mid(4),
        origin: requester,
    }));
    assert!(matches!(
        &answered[0],
        NodeDuty::Send(Action::RespondToClientHandlers {
            rpc: Rpc::Response { response: Response::GetIData(Err(Error::NoSuchData)), .. },
            ..
        })
    ));
    // the loss of a member that held nothing orders nothing
    done(node.handle(NodeDuty::ProcessLostMember { name: name(16), age: 5 }));
    assert_eq!(node.meta_data.as_ref().unwrap().adults, vec![name(32)]);
}

fn signed_credit_proof(amount: u64, id: u128, recipient: PublicKey, section: &Section) -> CreditAgreementProof {
    let credit = Credit { id: name(id), amount, recipient, msg: Vec::new() };
    let signed_credit = SignedCredit { credit, actor_signature: Signature { bytes: [0; 96] } };
    let bytes = encode_signed_credit(&signed_credit);
    let shares: std::collections::BTreeMap<usize, threshold_crypto::SignatureShare> =
        (0..section.needed).map(|i| (i, section.secret.secret_key_share(i).sign(&bytes))).collect();
    let sig = section.secret.public_keys().combine_signatures(&shares).unwrap();
    CreditAgreementProof {
        signed_credit,
        debiting_replicas_sig: Signature { bytes: sig.to_bytes() },
        debiting_replicas_keys: section.public_key(),
    }
}

#[test]
fn transfer_duties_answer_the_origin() {
    let section = Section::new(2);
    let mut node = elder(&section);
    let origin = SrcLocation::Node(name(7));
    let p = signed_credit_proof(50, 1, section.public_key(), &section);
    let answer = duties(node.handle(NodeDuty::PropagateTransfer {
        credit_proof: p.duplicate(),
        msg_id: mid(1),
        origin,
    }));
    match &answer[0] {
        NodeDuty::Send(Action::RespondToClientHandlers {
            sender,
            rpc: Rpc::Response { response: Response::Mutation(r), requester, message_id, .. },
        }) => {
            assert_eq!(*sender, name(1000));
            assert_eq!(*r, Ok(()));
            assert_eq!(*requester, PublicId::Node(name(7)));
            assert_eq!(*message_id, mid(1));
        }
        other => panic!("unexpected duty {:?}", other),
    }
    let _ = node.handle(NodeDuty::RegisterSectionPayout {
        debit_agreement: p.duplicate(),
        msg_id: mid(2),
        origin,
    });
    let mut forged = p.duplicate();
    forged.signed_credit.credit.amount = 51;
    let refused = duties(node.handle(NodeDuty::PropagateTransfer {
        credit_proof: forged,
        msg_id: mid(3),
        origin,
    }));
    assert!(matches!(
        &refused[0],
        NodeDuty::Send(Action::RespondToClientHandlers {
            rpc: Rpc::Response { response: Response::Mutation(Err(Error::InvalidSignature)), .. },
            ..
        })
    ));
    let events = duties(node.handle(NodeDuty::GetTransferReplicaEvents { msg_id: mid(4), origin }));
    match &events[0] {
        NodeDuty::Send(Action::RespondToClientHandlers {
            rpc: Rpc::Response { response: Response::ReplicaEvents(e), .. },
            ..
        }) => {
            assert_eq!(e.len(), 2);
            assert_eq!(e[0][0], 2);
            assert_eq!(e[1][0], 1);
        }
        other => panic!("unexpected duty {:?}", other),
    }
    assert_eq!(node.transfers.as_ref().unwrap().balance(&section.public_key()), 50);
    // an adult has no transfers
    let mut adult = infant(&section);
    done(adult.handle(NodeDuty::LevelUp));
    assert_eq!(
        adult.handle(NodeDuty::GetTransferReplicaEvents { msg_id: mid(5), origin }).err(),
        Some(Error::Missing(Missing::Transfers))
    );
}

#[test]
fn what_the_node_cannot_do_is_work_for_the_outside() {
    let section = Section::new(2);
    let mut node = elder(&section);
    let origin = SrcLocation::Node(name(7));
    match node.handle(NodeDuty::SetNodeWallet {
        wallet_id: section.public_key(),
        node_id: name(5),
        msg_id: mid(1),
        origin,
    }) {
        Ok(Outcome::Outside(OutsideWork::Rewards(RewardsCall::SetNodeWallet { node_id, .. }))) => {
            assert_eq!(node_id, name(5))
        }
        other => panic!("unexpected outcome {:?}", other),
    }
    assert!(matches!(
        node.handle(NodeDuty::GetSectionElders { msg_id: mid(2), origin }),
        Ok(Outcome::Outside(OutsideWork::GetSectionElders { .. }))
    ));
    assert!(matches!(
        node.handle(NodeDuty::SendToNodes {
            targets: vec![name(1)],
            msg: Rpc::DuplicationComplete { response: Response::Other, message_id: mid(3) },
        }),
        Ok(Outcome::Outside(OutsideWork::SendToNodes { .. }))
    ));
    done(node.handle(NodeDuty::NoOp));
    done(node.handle(NodeDuty::InformNewElders));
    done(node.handle(NodeDuty::SwitchNodeJoin(true)));
    done(node.handle(NodeDuty::ProcessNewMember(name(3))));
    let mut adult = infant(&section);
    done(adult.handle(NodeDuty::LevelUp));
    assert_eq!(
        adult
            .handle(NodeDuty::ActivateNodeRewards {
                id: section.public_key(),
                node_id: name(5),
                msg_id: mid(4),
                origin,
            })
            .err(),
        Some(Error::Missing(Missing::SectionFunds))
    );
}

#[test]
fn an_adult_without_keys_cannot_begin_the_handshake() {
    let section = Section::new(2);
    let mut network = section.network();
    network.keys = None;
    let info = NodeInfo { node_name: name(1), transfers_dir: temp_dir_text("transfers"), max_capacity: 10 };
    let mut node = Node::new(info, network);
    done(node.handle(NodeDuty::LevelUp));
    assert_eq!(node.handle(NodeDuty::BeginFormingGenesisSection).err(), Some(Error::NoSuchKey));
    node.set_network(section.network());
    assert!(node.handle(NodeDuty::BeginFormingGenesisSection).is_ok());
}

fn signed_request(section: &SecretKey, request: &Request) -> Signature {
    Signature { bytes: section.sign(encode_request(request)).to_bytes() }
}

#[test]
fn an_adult_serves_what_the_section_has_signed() {
    let section = SecretKey::random();
    let key = PublicKey { bytes: section.public_key().to_bytes() };
    let mut adult = Data::new(name(16), 100, Some(key));
    let chunk = public_chunk(vec![1, 2, 3]);
    let write = || Request::Node(NodeRequest::Write(ChunkWrite::New(public_chunk(vec![1, 2, 3]))));
    let src = SrcLocation::Section(name(1));
    let client = PublicId::Client(name(9));
    let envelope = |request: Request, id: u128| Rpc::Request { request, requester: client, message_id: mid(id) };
    // without a signature, and with the signature of another key, the write is dropped
    assert!(adult.receive_msg(src, envelope(write(), 1), None).is_none());
    let stranger = signed_request(&SecretKey::random(), &write());
    assert!(adult.receive_msg(src, envelope(write(), 2), Some(stranger)).is_none());
    // the signature over another request does not count
    let read = Request::Node(NodeRequest::Read(chunk.address));
    let over_read = signed_request(&section, &read);
    assert!(adult.receive_msg(src, envelope(write(), 3), Some(over_read)).is_none());
    assert!(adult.chunk_storage.chunks.get(&chunk.address).is_err());
    // a single node cannot order a write
    let good = signed_request(&section, &write());
    assert!(adult.receive_msg(SrcLocation::Node(name(5)), envelope(write(), 4), Some(good)).is_none());
    match adult.receive_msg(src, envelope(write(), 5), Some(good)) {
        Some(Action::RespondToOurDataHandlers {
            rpc: Rpc::Response { response: Response::Mutation(r), message_id, .. },
            ..
        }) => {
            assert_eq!(r, Ok(()));
            assert_eq!(message_id, mid(5));
        }
        other => panic!("unexpected action {:?}", other),
    }
    assert!(adult.chunk_storage.chunks.get(&chunk.address).is_ok());
    assert!(adult.validate_section_signature(&write(), &good).is_some());
    assert!(adult.validate_section_signature(&read, &good).is_none());
    match adult.receive_msg(src, envelope(Request::Node(NodeRequest::Read(chunk.address)), 6), Some(over_read)) {
        Some(Action::RespondToOurDataHandlers {
            rpc: Rpc::Response { response: Response::GetIData(Ok(got)), .. },
            ..
        }) => assert_eq!(got.bytes, vec![1, 2, 3]),
        other => panic!("unexpected action {:?}", other),
    }
    // a node that fetches its copy reads without the section
    let copy = Rpc::Request {
        request: Request::Node(NodeRequest::Read(chunk.address)),
        requester: PublicId::Node(name(48)),
        message_id: mid(7),
    };
    assert!(adult.receive_msg(SrcLocation::Node(name(48)), copy, None).is_some());
    // what is no order of a section to a node is dropped
    let idata = Request::MData(vec![1]);
    let sig = signed_request(&section, &idata);
    assert!(adult.receive_msg(src, envelope(idata, 8), Some(sig)).is_none());
    // an adult that knows no section key serves nothing
    adult.set_section_key(None);
    assert!(adult.public_key().is_none());
    assert!(adult.receive_msg(src, envelope(write(), 9), Some(good)).is_none());
}

#[test]
fn an_adult_stores_the_copy_that_it_fetched() {
    let section = SecretKey::random();
    let key = PublicKey { bytes: section.public_key().to_bytes() };
    let mut adult = Data::new(name(16), 100, Some(key));
    let chunk = public_chunk(vec![4, 5, 6]);
    let request = || Request::Node(NodeRequest::Read(chunk.address));
    let response = |requester: PublicId, with: bool, id: u128| Rpc::Response {
        response: Response::GetIData(Ok(chunk.duplicate())),
        requester,
        message_id: mid(id),
        request_proof: if with { Some((request(), signed_request(&section, &request()))) } else { None },
    };
    let src = SrcLocation::Node(name(32));
    assert!(adult.receive_msg(src, response(PublicId::Node(name(16)), false, 1), None).is_none());
    assert!(adult.receive_msg(src, response(PublicId::Client(name(9)), true, 2), None).is_none());
    assert!(adult.chunk_storage.chunks.get(&chunk.address).is_err());
    let stored = adult.receive_msg(src, response(PublicId::Node(name(16)), true, 3), None);
    assert!(matches!(
        stored,
        Some(Action::RespondToOurDataHandlers {
            rpc: Rpc::Response { response: Response::Mutation(Ok(())), .. },
            ..
        })
    ));
    assert!(adult.chunk_storage.chunks.get(&chunk.address).is_ok());
    let order = Rpc::Duplicate { address: chunk.address, holders: Vec::new(), message_id: mid(4) };
    assert!(adult.receive_msg(src, order, None).is_none());
}
