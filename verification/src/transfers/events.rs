//! Credits, the proofs that a section agreed to them, and the events that a
//! replica records of them.

use crate::codec::{
    decode_name, encode_name, encode_sized, lemma_name_reads_back, lemma_name_round_trip,
    name_bytes, name_from_bytes, sized_bytes,
};
use crate::messages::{copy_bytes, PublicKey, Signature};
use crate::name::XorName;
use vstd::bytes::{
    lemma_auto_spec_u64_to_from_le_bytes, spec_u64_from_le_bytes, spec_u64_to_le_bytes,
    u64_from_le_bytes, u64_to_le_bytes,
};
use vstd::slice::{slice_subrange, slice_to_vec};
use vstd::prelude::*;

verus! {

/// A credit: `amount` to the wallet of `recipient`. Two credits with one
/// `id` are the same credit.
#[derive(Debug)]
pub struct Credit {
    pub id: XorName,
    pub amount: u64,
    pub recipient: PublicKey,
    pub msg: Vec<u8>,
}

/// A credit with the signature of the actor that pays it.
#[derive(Debug)]
pub struct SignedCredit {
    pub credit: Credit,
    pub actor_signature: Signature,
}

/// A signed credit that the replicas of the paying wallet agreed to: their
/// combined signature over it, and the public key of their section.
#[derive(Debug)]
pub struct CreditAgreementProof {
    pub signed_credit: SignedCredit,
    pub debiting_replicas_sig: Signature,
    pub debiting_replicas_keys: PublicKey,
}

/// A transfer that an actor asks the replicas to validate: a credit that the
/// wallet of `sender` is to pay, with the actor's signature over it.
#[derive(Debug)]
pub struct SignedTransfer {
    pub sender: PublicKey,
    pub credit: Credit,
    pub actor_signature: Signature,
}

/// One step of a transfer, as a replica records it.
#[derive(Debug)]
pub enum ReplicaEvent {
    /// This replica found the transfer valid. `replica` is the index of its
    /// key share: the share that signs the validation.
    TransferValidated { signed_transfer: SignedTransfer, replica: u64 },
    /// The section of the paying wallet has agreed to the credit.
    TransferRegistered { credit_proof: CreditAgreementProof },
    /// The credit has reached the wallet that receives it.
    TransferPropagated { credit_proof: CreditAgreementProof },
}

/// A credit as contracts speak of it.
pub ghost struct CreditView {
    pub id: XorName,
    pub amount: u64,
    pub recipient: Seq<u8>,
    pub msg: Seq<u8>,
}

impl View for Credit {
    type V = CreditView;

    open spec fn view(&self) -> CreditView {
        CreditView { id: self.id, amount: self.amount, recipient: self.recipient@, msg: self.msg@ }
    }
}

/// A proof as contracts speak of it.
pub ghost struct ProofView {
    pub credit: CreditView,
    pub actor_signature: Seq<u8>,
    pub debiting_replicas_sig: Seq<u8>,
    pub debiting_replicas_keys: Seq<u8>,
}

impl View for CreditAgreementProof {
    type V = ProofView;

    open spec fn view(&self) -> ProofView {
        ProofView {
            credit: self.signed_credit.credit@,
            actor_signature: self.signed_credit.actor_signature@,
            debiting_replicas_sig: self.debiting_replicas_sig@,
            debiting_replicas_keys: self.debiting_replicas_keys@,
        }
    }
}

/// An event as contracts speak of it.
pub ghost enum EventView {
    TransferValidated { sender: Seq<u8>, credit: CreditView, actor_signature: Seq<u8>, replica: u64 },
    TransferRegistered { credit_proof: ProofView },
    TransferPropagated { credit_proof: ProofView },
}

impl View for ReplicaEvent {
    type V = EventView;

    open spec fn view(&self) -> EventView {
        match *self {
            ReplicaEvent::TransferValidated { signed_transfer, replica } => EventView::TransferValidated {
                sender: signed_transfer.sender@,
                credit: signed_transfer.credit@,
                actor_signature: signed_transfer.actor_signature@,
                replica,
            },
            ReplicaEvent::TransferRegistered { credit_proof } => EventView::TransferRegistered {
                credit_proof: credit_proof@,
            },
            ReplicaEvent::TransferPropagated { credit_proof } => EventView::TransferPropagated {
                credit_proof: credit_proof@,
            },
        }
    }
}

/// The events of a list as contracts speak of them.
pub open spec fn event_views(events: Seq<ReplicaEvent>) -> Seq<EventView> {
    Seq::new(events.len(), |i: int| events[i]@)
}

/// The bytes that a credit is signed as.
pub open spec fn credit_encoding(c: CreditView) -> Seq<u8> {
    name_bytes(c.id) + spec_u64_to_le_bytes(c.amount) + c.recipient + sized_bytes(c.msg)
}

/// The bytes that a signed credit is signed as.
pub open spec fn signed_credit_encoding(c: CreditView, actor_signature: Seq<u8>) -> Seq<u8> {
    credit_encoding(c) + actor_signature
}

/// The bytes that a transfer is signed as.
pub open spec fn transfer_encoding(sender: Seq<u8>, c: CreditView) -> Seq<u8> {
    sender + credit_encoding(c)
}

/// The bytes of a proof.
pub open spec fn proof_encoding(p: ProofView) -> Seq<u8> {
    signed_credit_encoding(p.credit, p.actor_signature) + p.debiting_replicas_sig
        + p.debiting_replicas_keys
}

/// The bytes that an event is logged as.
pub open spec fn event_encoding(e: EventView) -> Seq<u8> {
    match e {
        EventView::TransferValidated { sender, credit, actor_signature, replica } => seq![0u8]
            + transfer_encoding(sender, credit) + actor_signature + spec_u64_to_le_bytes(replica),
        EventView::TransferRegistered { credit_proof } => seq![1u8] + proof_encoding(credit_proof),
        EventView::TransferPropagated { credit_proof } => seq![2u8] + proof_encoding(credit_proof),
    }
}

/// What an event adds to the balance of the wallet that records it: a credit
/// that has reached the wallet adds its amount, every other step adds
/// nothing.
pub open spec fn event_amount(e: EventView) -> nat {
    match e {
        EventView::TransferPropagated { credit_proof } => credit_proof.credit.amount as nat,
        _ => 0,
    }
}

/// The balance that a history of events folds to.
pub open spec fn fold(history: Seq<EventView>) -> nat
    decreases history.len(),
{
    if history.len() == 0 {
        0
    } else {
        fold(history.drop_last()) + event_amount(history.last())
    }
}

/// Folding a history with one more event adds what that event adds.
pub proof fn lemma_fold_push(history: Seq<EventView>, e: EventView)
    ensures
        fold(history.push(e)) == fold(history) + event_amount(e),
{
    assert(history.push(e).drop_last() =~= history);
}

fn push_array48(out: &mut Vec<u8>, a: &[u8; 48])
    ensures
        final(out)@ == old(out)@ + a@,
{
    let mut i: usize = 0;
    while i < 48
        invariant
            i <= 48,
            out@ == old(out)@ + a@.take(i as int),
        decreases 48 - i,
    {
        out.push(a[i]);
        proof {
            assert(a@.take(i as int + 1) =~= a@.take(i as int).push(a@[i as int]));
            assert(out@ =~= old(out)@ + a@.take(i as int + 1));
        }
        i += 1;
    }
    proof {
        assert(a@.take(48) =~= a@);
    }
}

fn push_array96(out: &mut Vec<u8>, a: &[u8; 96])
    ensures
        final(out)@ == old(out)@ + a@,
{
    let mut i: usize = 0;
    while i < 96
        invariant
            i <= 96,
            out@ == old(out)@ + a@.take(i as int),
        decreases 96 - i,
    {
        out.push(a[i]);
        proof {
            assert(a@.take(i as int + 1) =~= a@.take(i as int).push(a@[i as int]));
            assert(out@ =~= old(out)@ + a@.take(i as int + 1));
        }
        i += 1;
    }
    proof {
        assert(a@.take(96) =~= a@);
    }
}

fn push_u64(out: &mut Vec<u8>, x: u64)
    ensures
        final(out)@ == old(out)@ + spec_u64_to_le_bytes(x),
{
    let le = u64_to_le_bytes(x);
    let mut i: usize = 0;
    while i < le.len()
        invariant
            i <= le@.len(),
            le@ == spec_u64_to_le_bytes(x),
            out@ == old(out)@ + le@.take(i as int),
        decreases le@.len() - i,
    {
        out.push(le[i]);
        proof {
            assert(le@.take(i as int + 1) =~= le@.take(i as int).push(le@[i as int]));
            assert(out@ =~= old(out)@ + le@.take(i as int + 1));
        }
        i += 1;
    }
    proof {
        assert(le@.take(le@.len() as int) =~= le@);
    }
}

/// Appends the bytes that a credit is signed as.
pub fn encode_credit(out: &mut Vec<u8>, c: &Credit)
    ensures
        final(out)@ == old(out)@ + credit_encoding(c@),
{
    encode_name(out, &c.id);
    push_u64(out, c.amount);
    push_array48(out, &c.recipient.bytes);
    encode_sized(out, &c.msg);
    proof {
        assert(out@ =~= old(out)@ + credit_encoding(c@));
    }
}

/// The bytes that a signed credit is signed as.
pub fn encode_signed_credit(c: &SignedCredit) -> (out: Vec<u8>)
    ensures
        out@ == signed_credit_encoding(c.credit@, c.actor_signature@),
{
    let mut out: Vec<u8> = Vec::new();
    encode_credit(&mut out, &c.credit);
    push_array96(&mut out, &c.actor_signature.bytes);
    proof {
        assert(out@ =~= signed_credit_encoding(c.credit@, c.actor_signature@));
    }
    out
}

/// The bytes that a transfer is signed as.
pub fn encode_transfer(t: &SignedTransfer) -> (out: Vec<u8>)
    ensures
        out@ == transfer_encoding(t.sender@, t.credit@),
{
    let mut out: Vec<u8> = Vec::new();
    push_array48(&mut out, &t.sender.bytes);
    encode_credit(&mut out, &t.credit);
    proof {
        assert(out@ =~= transfer_encoding(t.sender@, t.credit@));
    }
    out
}

fn encode_proof(out: &mut Vec<u8>, p: &CreditAgreementProof)
    ensures
        final(out)@ == old(out)@ + proof_encoding(p@),
{
    encode_credit(out, &p.signed_credit.credit);
    push_array96(out, &p.signed_credit.actor_signature.bytes);
    push_array96(out, &p.debiting_replicas_sig.bytes);
    push_array48(out, &p.debiting_replicas_keys.bytes);
    proof {
        assert(out@ =~= old(out)@ + proof_encoding(p@));
    }
}

/// The bytes that an event is logged as.
pub fn encode_event(e: &ReplicaEvent) -> (out: Vec<u8>)
    ensures
        out@ == event_encoding(e@),
{
    let mut out: Vec<u8> = Vec::new();
    match e {
        ReplicaEvent::TransferValidated { signed_transfer, replica } => {
            out.push(0u8);
            push_array48(&mut out, &signed_transfer.sender.bytes);
            encode_credit(&mut out, &signed_transfer.credit);
            push_array96(&mut out, &signed_transfer.actor_signature.bytes);
            push_u64(&mut out, *replica);
        },
        ReplicaEvent::TransferRegistered { credit_proof } => {
            out.push(1u8);
            encode_proof(&mut out, credit_proof);
        },
        ReplicaEvent::TransferPropagated { credit_proof } => {
            out.push(2u8);
            encode_proof(&mut out, credit_proof);
        },
    }
    proof {
        assert(out@ =~= event_encoding(e@));
    }
    out
}

impl Credit {
    /// A copy of the credit.
    pub fn duplicate(&self) -> (r: Credit)
        ensures
            r@ == self@,
    {
        Credit {
            id: self.id,
            amount: self.amount,
            recipient: self.recipient,
            msg: copy_bytes(&self.msg),
        }
    }
}

impl CreditAgreementProof {
    /// A copy of the proof.
    pub fn duplicate(&self) -> (r: CreditAgreementProof)
        ensures
            r@ == self@,
    {
        CreditAgreementProof {
            signed_credit: SignedCredit {
                credit: self.signed_credit.credit.duplicate(),
                actor_signature: self.signed_credit.actor_signature,
            },
            debiting_replicas_sig: self.debiting_replicas_sig,
            debiting_replicas_keys: self.debiting_replicas_keys,
        }
    }

    /// The wallet that the credit goes to.
    pub fn to(&self) -> (r: PublicKey)
        ensures
            r@ == self@.credit.recipient,
    {
        self.signed_credit.credit.recipient
    }

    /// The amount of the credit.
    pub fn amount(&self) -> (r: u64)
        ensures
            r == self@.credit.amount,
    {
        self.signed_credit.credit.amount
    }

    /// The identifier of the credit.
    pub fn id(&self) -> (r: XorName)
        ensures
            r == self@.credit.id,
    {
        self.signed_credit.credit.id
    }
}

/// A credit that an executable credit can be the view of: its recipient is
/// a key of 48 bytes and the length of its message fits 8 bytes.
pub open spec fn valid_credit(c: CreditView) -> bool {
    c.recipient.len() == 48 && c.msg.len() <= u64::MAX
}

/// A proof that an executable proof can be the view of.
pub open spec fn valid_proof(p: ProofView) -> bool {
    &&& valid_credit(p.credit)
    &&& p.actor_signature.len() == 96
    &&& p.debiting_replicas_sig.len() == 96
    &&& p.debiting_replicas_keys.len() == 48
}

/// An event that an executable event can be the view of.
pub open spec fn valid_event(e: EventView) -> bool {
    match e {
        EventView::TransferValidated { sender, credit, actor_signature, replica } => sender.len()
            == 48 && valid_credit(credit) && actor_signature.len() == 96,
        EventView::TransferRegistered { credit_proof } => valid_proof(credit_proof),
        EventView::TransferPropagated { credit_proof } => valid_proof(credit_proof),
    }
}

/// The credit that stands at the head of a byte string, and the number of
/// bytes that it takes, where the bytes begin with the encoding of one.
pub open spec fn parse_credit(b: Seq<u8>) -> Option<(CreditView, int)> {
    if b.len() < 96 {
        None
    } else {
        let len = spec_u64_from_le_bytes(b.subrange(88, 96)) as int;
        if b.len() < 96 + len {
            None
        } else {
            Some(
                (
                    CreditView {
                        id: name_from_bytes(b.subrange(0, 32)),
                        amount: spec_u64_from_le_bytes(b.subrange(32, 40)),
                        recipient: b.subrange(40, 88),
                        msg: b.subrange(96, 96 + len),
                    },
                    96 + len,
                ),
            )
        }
    }
}

/// The proof that a byte string is the encoding of, where it is one.
pub open spec fn parse_proof(b: Seq<u8>) -> Option<ProofView> {
    match parse_credit(b) {
        Some((credit, used)) => if b.len() == used + 240 {
            Some(
                ProofView {
                    credit,
                    actor_signature: b.subrange(used, used + 96),
                    debiting_replicas_sig: b.subrange(used + 96, used + 192),
                    debiting_replicas_keys: b.subrange(used + 192, used + 240),
                },
            )
        } else {
            None
        },
        None => None,
    }
}

/// The event that a byte string is the encoding of, where it is one.
pub open spec fn parse_event(b: Seq<u8>) -> Option<EventView> {
    if b.len() == 0 {
        None
    } else if b[0] == 0 {
        if b.len() < 49 {
            None
        } else {
            match parse_credit(b.subrange(49, b.len() as int)) {
                Some((credit, used)) => if b.len() == 49 + used + 104 {
                    Some(
                        EventView::TransferValidated {
                            sender: b.subrange(1, 49),
                            credit,
                            actor_signature: b.subrange(49 + used, 49 + used + 96),
                            replica: spec_u64_from_le_bytes(
                                b.subrange(49 + used + 96, 49 + used + 104),
                            ),
                        },
                    )
                } else {
                    None
                },
                None => None,
            }
        }
    } else if b[0] == 1 {
        match parse_proof(b.subrange(1, b.len() as int)) {
            Some(credit_proof) => Some(EventView::TransferRegistered { credit_proof }),
            None => None,
        }
    } else if b[0] == 2 {
        match parse_proof(b.subrange(1, b.len() as int)) {
            Some(credit_proof) => Some(EventView::TransferPropagated { credit_proof }),
            None => None,
        }
    } else {
        None
    }
}

/// The encoding of a credit, with anything behind it, reads back as the
/// credit.
pub proof fn lemma_credit_reads_back(c: CreditView, rest: Seq<u8>)
    requires
        valid_credit(c),
    ensures
        credit_encoding(c).len() == 96 + c.msg.len(),
        parse_credit(credit_encoding(c) + rest) == Some((c, 96 + c.msg.len() as int)),
{
    lemma_auto_spec_u64_to_from_le_bytes();
    lemma_name_round_trip(c.id);
    let b = credit_encoding(c) + rest;
    let len = c.msg.len() as u64;
    assert(b.subrange(0, 32) =~= name_bytes(c.id));
    assert(b.subrange(32, 40) =~= spec_u64_to_le_bytes(c.amount));
    assert(b.subrange(40, 88) =~= c.recipient);
    assert(b.subrange(88, 96) =~= spec_u64_to_le_bytes(len));
    assert(b.subrange(96, 96 + c.msg.len() as int) =~= c.msg);
}

/// What reads as a credit is the encoding of that credit.
pub proof fn lemma_credit_parse_is_sound(b: Seq<u8>)
    ensures
        parse_credit(b) matches Some((c, used)) ==> valid_credit(c) && 96 <= used <= b.len()
            && credit_encoding(c) == b.subrange(0, used),
{
    lemma_auto_spec_u64_to_from_le_bytes();
    if parse_credit(b) is Some {
        let (c, used) = parse_credit(b)->Some_0;
        lemma_name_reads_back(b.subrange(0, 32));
        assert(spec_u64_to_le_bytes(c.amount) == b.subrange(32, 40));
        assert(spec_u64_to_le_bytes(c.msg.len() as u64) == b.subrange(88, 96));
        assert(credit_encoding(c) =~= b.subrange(0, used));
    }
}

/// The encoding of an event reads back as the event.
pub proof fn lemma_event_reads_back(e: EventView)
    requires
        valid_event(e),
    ensures
        parse_event(event_encoding(e)) == Some(e),
{
    lemma_auto_spec_u64_to_from_le_bytes();
    let b = event_encoding(e);
    match e {
        EventView::TransferValidated { sender, credit, actor_signature, replica } => {
            let rest = actor_signature + spec_u64_to_le_bytes(replica);
            lemma_credit_reads_back(credit, rest);
            let used: int = 96 + credit.msg.len() as int;
            assert(b.subrange(49, b.len() as int) =~= credit_encoding(credit) + rest);
            assert(b.subrange(1, 49) =~= sender);
            assert(b.subrange(49 + used, 49 + used + 96) =~= actor_signature);
            assert(b.subrange(49 + used + 96, 49 + used + 104) =~= spec_u64_to_le_bytes(replica));
        },
        EventView::TransferRegistered { credit_proof } => {
            lemma_proof_reads_back(credit_proof);
            assert(b.subrange(1, b.len() as int) =~= proof_encoding(credit_proof));
        },
        EventView::TransferPropagated { credit_proof } => {
            lemma_proof_reads_back(credit_proof);
            assert(b.subrange(1, b.len() as int) =~= proof_encoding(credit_proof));
        },
    }
}

proof fn lemma_proof_reads_back(p: ProofView)
    requires
        valid_proof(p),
    ensures
        parse_proof(proof_encoding(p)) == Some(p),
{
    let rest = p.actor_signature + p.debiting_replicas_sig + p.debiting_replicas_keys;
    lemma_credit_reads_back(p.credit, rest);
    let b = proof_encoding(p);
    let used: int = 96 + p.credit.msg.len() as int;
    assert(b =~= credit_encoding(p.credit) + rest);
    assert(b.subrange(used, used + 96) =~= p.actor_signature);
    assert(b.subrange(used + 96, used + 192) =~= p.debiting_replicas_sig);
    assert(b.subrange(used + 192, used + 240) =~= p.debiting_replicas_keys);
}

proof fn lemma_proof_parse_is_sound(b: Seq<u8>)
    ensures
        parse_proof(b) matches Some(p) ==> valid_proof(p) && proof_encoding(p) == b,
{
    lemma_credit_parse_is_sound(b);
    if parse_proof(b) is Some {
        let p = parse_proof(b)->Some_0;
        assert(proof_encoding(p) =~= b);
    }
}

/// What reads as an event is the encoding of that event: no two events
/// have one encoding.
pub proof fn lemma_event_parse_is_sound(b: Seq<u8>)
    ensures
        parse_event(b) matches Some(e) ==> valid_event(e) && event_encoding(e) == b,
{
    lemma_auto_spec_u64_to_from_le_bytes();
    if parse_event(b) is Some {
        let e = parse_event(b)->Some_0;
        if b[0] == 0 {
            let tail = b.subrange(49, b.len() as int);
            lemma_credit_parse_is_sound(tail);
            let (c, used) = parse_credit(tail)->Some_0;
            assert(tail.subrange(0, used) =~= b.subrange(49, 49 + used));
            assert(event_encoding(e) =~= b);
        } else {
            lemma_proof_parse_is_sound(b.subrange(1, b.len() as int));
            assert(event_encoding(e) =~= b);
        }
    }
}

/// The view of an executable event is a valid event.
pub proof fn lemma_views_are_valid(e: ReplicaEvent)
    requires
        match e {
            ReplicaEvent::TransferValidated { signed_transfer, .. } => signed_transfer.credit.msg@.len()
                <= u64::MAX,
            ReplicaEvent::TransferRegistered { credit_proof } => credit_proof.signed_credit.credit.msg@.len()
                <= u64::MAX,
            ReplicaEvent::TransferPropagated { credit_proof } => credit_proof.signed_credit.credit.msg@.len()
                <= u64::MAX,
        },
    ensures
        valid_event(e@),
{
}

fn read_key(bytes: &[u8], at: usize) -> (k: PublicKey)
    requires
        at + 48 <= bytes@.len(),
    ensures
        k@ == bytes@.subrange(at as int, at + 48),
{
    let n = bytes.len();
    let mut a = [0u8; 48];
    let mut i: usize = 0;
    while i < 48
        invariant
            i <= 48,
            n == bytes@.len(),
            at + 48 <= bytes@.len(),
            forall|j: int| 0 <= j < i ==> a@[j] == bytes@[at + j],
        decreases 48 - i,
    {
        a[i] = bytes[at + i];
        i += 1;
    }
    proof {
        assert(a@ =~= bytes@.subrange(at as int, at + 48));
    }
    PublicKey { bytes: a }
}

fn read_signature(bytes: &[u8], at: usize) -> (s: Signature)
    requires
        at + 96 <= bytes@.len(),
    ensures
        s@ == bytes@.subrange(at as int, at + 96),
{
    let n = bytes.len();
    let mut a = [0u8; 96];
    let mut i: usize = 0;
    while i < 96
        invariant
            i <= 96,
            n == bytes@.len(),
            at + 96 <= bytes@.len(),
            forall|j: int| 0 <= j < i ==> a@[j] == bytes@[at + j],
        decreases 96 - i,
    {
        a[i] = bytes[at + i];
        i += 1;
    }
    proof {
        assert(a@ =~= bytes@.subrange(at as int, at + 96));
    }
    Signature { bytes: a }
}

fn read_name(bytes: &[u8], at: usize) -> (n: XorName)
    requires
        at + 32 <= bytes@.len(),
    ensures
        n == name_from_bytes(bytes@.subrange(at as int, at + 32)),
{
    let n = bytes.len();
    let mut a = [0u8; 32];
    let mut i: usize = 0;
    while i < 32
        invariant
            i <= 32,
            n == bytes@.len(),
            at + 32 <= bytes@.len(),
            forall|j: int| 0 <= j < i ==> a@[j] == bytes@[at + j],
        decreases 32 - i,
    {
        a[i] = bytes[at + i];
        i += 1;
    }
    proof {
        assert(a@ =~= bytes@.subrange(at as int, at + 32));
    }
    decode_name(&a)
}

fn read_u64(bytes: &[u8], at: usize) -> (x: u64)
    requires
        at + 8 <= bytes@.len(),
    ensures
        x == spec_u64_from_le_bytes(bytes@.subrange(at as int, at + 8)),
{
    let n = bytes.len();
    u64_from_le_bytes(slice_subrange(bytes, at, at + 8))
}

fn decode_credit(bytes: &[u8], at: usize) -> (r: Option<(Credit, usize)>)
    requires
        at <= bytes@.len(),
    ensures
        match r {
            Some((c, used)) => parse_credit(bytes@.subrange(at as int, bytes@.len() as int))
                == Some((c@, used as int)) && at + used <= bytes@.len(),
            None => parse_credit(bytes@.subrange(at as int, bytes@.len() as int)) is None,
        },
{
    let ghost b = bytes@.subrange(at as int, bytes@.len() as int);
    let left = bytes.len() - at;
    if left < 96 {
        return None;
    }
    proof {
        assert(b.subrange(0, 32) =~= bytes@.subrange(at as int, at + 32));
        assert(b.subrange(32, 40) =~= bytes@.subrange(at + 32, at + 40));
        assert(b.subrange(40, 88) =~= bytes@.subrange(at + 40, at + 88));
        assert(b.subrange(88, 96) =~= bytes@.subrange(at + 88, at + 96));
    }
    let id = read_name(bytes, at);
    let amount = read_u64(bytes, at + 32);
    let recipient = read_key(bytes, at + 40);
    let len = read_u64(bytes, at + 88);
    if len > (left - 96) as u64 {
        return None;
    }
    let len = len as usize;
    let msg = slice_to_vec(slice_subrange(bytes, at + 96, at + 96 + len));
    proof {
        assert(b.subrange(96, 96 + len) =~= bytes@.subrange(at + 96, at + 96 + len));
    }
    Some((Credit { id, amount, recipient, msg }, 96 + len))
}

fn decode_proof(bytes: &[u8], at: usize) -> (r: Option<CreditAgreementProof>)
    requires
        at <= bytes@.len(),
    ensures
        match r {
            Some(p) => parse_proof(bytes@.subrange(at as int, bytes@.len() as int)) == Some(p@),
            None => parse_proof(bytes@.subrange(at as int, bytes@.len() as int)) is None,
        },
{
    let ghost b = bytes@.subrange(at as int, bytes@.len() as int);
    let (credit, used) = match decode_credit(bytes, at) {
        Some(x) => x,
        None => {
            return None;
        },
    };
    let left = bytes.len() - at - used;
    if left != 240 {
        return None;
    }
    let from = at + used;
    proof {
        assert(b.subrange(used as int, used + 96) =~= bytes@.subrange(from as int, from + 96));
        assert(b.subrange(used + 96, used + 192) =~= bytes@.subrange(from + 96, from + 192));
        assert(b.subrange(used + 192, used + 240) =~= bytes@.subrange(from + 192, from + 240));
    }
    let actor_signature = read_signature(bytes, from);
    let debiting_replicas_sig = read_signature(bytes, from + 96);
    let debiting_replicas_keys = read_key(bytes, from + 192);
    Some(
        CreditAgreementProof {
            signed_credit: SignedCredit { credit, actor_signature },
            debiting_replicas_sig,
            debiting_replicas_keys,
        },
    )
}

/// Reads an event from the bytes that it is logged as.
pub fn decode_event(bytes: &[u8]) -> (r: Option<ReplicaEvent>)
    ensures
        match r {
            Some(e) => parse_event(bytes@) == Some(e@),
            None => parse_event(bytes@) is None,
        },
{
    if bytes.len() == 0 {
        return None;
    }
    let tag = bytes[0];
    if tag == 0 {
        if bytes.len() < 49 {
            return None;
        }
        let (credit, used) = match decode_credit(bytes, 49) {
            Some(x) => x,
            None => {
                return None;
            },
        };
        if bytes.len() - 49 - used != 104 {
            return None;
        }
        let sender = read_key(bytes, 1);
        let actor_signature = read_signature(bytes, 49 + used);
        let replica = read_u64(bytes, 49 + used + 96);
        Some(
            ReplicaEvent::TransferValidated {
                signed_transfer: SignedTransfer { sender, credit, actor_signature },
                replica,
            },
        )
    } else if tag == 1 {
        match decode_proof(bytes, 1) {
            Some(credit_proof) => Some(ReplicaEvent::TransferRegistered { credit_proof }),
            None => None,
        }
    } else if tag == 2 {
        match decode_proof(bytes, 1) {
            Some(credit_proof) => Some(ReplicaEvent::TransferPropagated { credit_proof }),
            None => None,
        }
    } else {
        None
    }
}

} // verus!
