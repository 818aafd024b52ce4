//! The genesis handshake: two rounds of threshold signatures by which the
//! founding elders mint the initial supply into the wallet of the first
//! section. In round one every elder signs the same credit; in round two
//! every elder signs the credit with the combined signature of round one.
//! The node's own share is made by the overlay and comes in as any other.

use crate::crypto::{
    bls_combined, bls_verifies, combine_shares, has_key_set_shape, key_set_shape,
    signature_verifies,
};
use crate::messages::{Error, PublicKey, Signature};
use crate::name::XorName;
use crate::node::genesis_stage::{
    shares_view, GenesisAccumulation, GenesisProposal, GenesisStage, SignatureIndexShare,
    StageView,
};
use crate::transfers::events::{
    credit_encoding, encode_credit, Credit, CreditAgreementProof, CreditView, ProofView,
    SignedCredit,
};
use vstd::prelude::*;

verus! {

/// The initial supply.
pub const GENESIS_AMOUNT: u64 = 4_294_967_295_000_000_000;

/// The message of the genesis credit: the bytes of the word `genesis`.
pub open spec fn genesis_msg() -> Seq<u8> {
    seq![103u8, 101u8, 110u8, 101u8, 115u8, 105u8, 115u8]
}

/// The genesis credit of a section: the initial supply to the wallet of the
/// section, under the identifier that is all zero.
pub open spec fn genesis_credit(section_key: Seq<u8>) -> CreditView {
    CreditView {
        id: XorName { hi: 0, lo: 0 },
        amount: GENESIS_AMOUNT,
        recipient: section_key,
        msg: genesis_msg(),
    }
}

/// What a node knows of the keys of its section: the public key, the
/// serialised key set, and the number of shares that combine to a
/// signature.
pub struct SectionKeys {
    pub public_key: PublicKey,
    pub key_set: Vec<u8>,
    pub threshold: usize,
}

/// What a step of the handshake asks the overlay to do.
#[derive(Debug)]
pub enum GenesisRequest {
    /// Sign the credit with this node's key share and send the share to
    /// every elder, this node included.
    SignProposal(Credit),
    /// Sign the signed credit with this node's key share and send the share
    /// to every elder, this node included.
    SignAccumulation(SignedCredit),
}

/// A request as contracts speak of it.
pub open spec fn asks_proposal(r: Option<GenesisRequest>, credit: CreditView) -> bool {
    r matches Some(GenesisRequest::SignProposal(c)) && c@ == credit
}

/// A request as contracts speak of it.
pub open spec fn asks_accumulation(
    r: Option<GenesisRequest>,
    credit: CreditView,
    actor_signature: Seq<u8>,
) -> bool {
    r matches Some(GenesisRequest::SignAccumulation(c)) && c.credit@ == credit
        && c.actor_signature@ == actor_signature
}

/// The step is refused with `e`.
pub open spec fn refused(r: Result<Option<GenesisRequest>, Error>, e: Error) -> bool {
    r matches Err(given) && given == e
}

/// The step succeeds and asks nothing of the overlay.
pub open spec fn quiet(r: Result<Option<GenesisRequest>, Error>) -> bool {
    r matches Ok(request) && request is None
}

/// The step succeeds and asks the overlay for this node's share of round
/// one.
pub open spec fn proposes(r: Result<Option<GenesisRequest>, Error>, credit: CreditView) -> bool {
    r matches Ok(request) && asks_proposal(request, credit)
}

/// The step succeeds and asks the overlay for this node's share of round
/// two.
pub open spec fn accumulates(
    r: Result<Option<GenesisRequest>, Error>,
    credit: CreditView,
    actor_signature: Seq<u8>,
) -> bool {
    r matches Ok(request) && asks_accumulation(request, credit, actor_signature)
}

/// The stage is round two on a signed credit with a signature other than
/// `actor_signature`.
pub open spec fn collects_for_another(stage: StageView, actor_signature: Seq<u8>) -> bool {
    stage matches StageView::AccumulatingGenesis { actor_signature: ours, .. } && ours
        != actor_signature
}

/// The signature that the shares combine to under the key set of the
/// section, where there is one: bytes that have not the shape of a key set
/// combine nothing.
pub open spec fn combined(keys: &SectionKeys, shares: Seq<(u64, Seq<u8>)>) -> Option<Seq<u8>> {
    if key_set_shape(keys.key_set@) {
        bls_combined(keys.key_set@, shares)
    } else {
        None
    }
}

/// The shares of the key shares before `index` (`above` false) or after it
/// (`above` true), in the order in which they stand.
pub open spec fn shares_beside(shares: Seq<(u64, Seq<u8>)>, index: u64, above: bool) -> Seq<
    (u64, Seq<u8>),
>
    decreases shares.len(),
{
    if shares.len() == 0 {
        shares
    } else {
        let rest = shares_beside(shares.drop_last(), index, above);
        let i = shares.last().0;
        if (above && i > index) || (!above && i < index) {
            rest.push(shares.last())
        } else {
            rest
        }
    }
}

/// The shares with `share` as the one share of the key share `index`: those
/// of the key shares before it, then `share`, then those of the key shares
/// after it. An earlier share of `index` is gone.
pub open spec fn with_share(shares: Seq<(u64, Seq<u8>)>, index: u64, share: Seq<u8>) -> Seq<
    (u64, Seq<u8>),
> {
    shares_beside(shares, index, false).push((index, share)) + shares_beside(shares, index, true)
}

/// The shares stand by key share, each key share once.
pub open spec fn in_order(shares: Seq<(u64, Seq<u8>)>) -> bool {
    forall|i: int, j: int| 0 <= i < j < shares.len() ==> shares[i].0 < shares[j].0
}

/// What is picked from the shares comes from them, in their order.
proof fn lemma_beside_is_picked(shares: Seq<(u64, Seq<u8>)>, index: u64, above: bool)
    ensures
        shares_beside(shares, index, above).len() <= shares.len(),
        forall|k: int|
            0 <= k < shares_beside(shares, index, above).len() ==> {
                let i = (#[trigger] shares_beside(shares, index, above)[k]).0;
                if above {
                    i > index
                } else {
                    i < index
                }
            },
        in_order(shares) ==> in_order(shares_beside(shares, index, above)),
        in_order(shares) ==> forall|k: int|
            0 <= k < shares_beside(shares, index, above).len() && shares.len() > 0
                ==> (#[trigger] shares_beside(shares, index, above)[k]).0 <= shares.last().0,
    decreases shares.len(),
{
    if shares.len() > 0 {
        let front = shares.drop_last();
        lemma_beside_is_picked(front, index, above);
        if in_order(shares) {
            assert(in_order(front)) by {
                assert forall|i: int, j: int| 0 <= i < j < front.len() implies front[i].0
                    < front[j].0 by {
                    assert(front[i] == shares[i] && front[j] == shares[j]);
                }
            }
            let rest = shares_beside(front, index, above);
            assert forall|k: int| 0 <= k < rest.len() implies (#[trigger] rest[k]).0
                < shares.last().0 by {
                if front.len() > 0 {
                    assert(front.last() == shares[shares.len() - 2]);
                }
            }
        }
    }
}

/// Shares that stand by key share still do when one is put among them.
pub proof fn lemma_shares_stay_in_order(shares: Seq<(u64, Seq<u8>)>, index: u64, share: Seq<u8>)
    requires
        in_order(shares),
    ensures
        in_order(with_share(shares, index, share)),
{
    lemma_beside_is_picked(shares, index, false);
    lemma_beside_is_picked(shares, index, true);
}

fn add_share(shares: &mut Vec<SignatureIndexShare>, sig: SignatureIndexShare)
    ensures
        shares_view(final(shares)@) == with_share(shares_view(old(shares)@), sig.0, sig.1@),
{
    let ghost before = shares_view(shares@);
    let mut kept: Vec<SignatureIndexShare> = Vec::new();
    let mut i: usize = 0;
    proof {
        assert(shares_view(kept@) =~= shares_beside(before.take(0), sig.0, false));
    }
    while i < shares.len()
        invariant
            i <= shares@.len(),
            before == shares_view(shares@),
            shares_view(kept@) == shares_beside(before.take(i as int), sig.0, false),
        decreases shares@.len() - i,
    {
        let s = shares[i];
        proof {
            assert(before.take(i as int + 1).drop_last() =~= before.take(i as int));
            assert(before.take(i as int + 1).last() == before[i as int]);
            assert(before[i as int] == (s.0, s.1@));
        }
        if s.0 < sig.0 {
            let ghost k0 = kept@;
            kept.push(s);
            proof {
                assert(shares_view(kept@) =~= shares_view(k0).push((s.0, s.1@)));
            }
        }
        i += 1;
    }
    proof {
        assert(before.take(shares@.len() as int) =~= before);
    }
    let ghost k1 = kept@;
    kept.push(sig);
    let ghost head = shares_view(kept@);
    proof {
        assert(head =~= shares_view(k1).push((sig.0, sig.1@)));
        assert(shares_view(kept@) =~= head + shares_beside(before.take(0), sig.0, true));
    }
    i = 0;
    while i < shares.len()
        invariant
            i <= shares@.len(),
            before == shares_view(shares@),
            shares_view(kept@) == head + shares_beside(before.take(i as int), sig.0, true),
        decreases shares@.len() - i,
    {
        let s = shares[i];
        proof {
            assert(before.take(i as int + 1).drop_last() =~= before.take(i as int));
            assert(before.take(i as int + 1).last() == before[i as int]);
            assert(before[i as int] == (s.0, s.1@));
        }
        if s.0 > sig.0 {
            let ghost k0 = kept@;
            kept.push(s);
            proof {
                assert(shares_view(kept@) =~= shares_view(k0).push((s.0, s.1@)));
                assert(shares_view(kept@) =~= head + shares_beside(
                    before.take(i as int + 1),
                    sig.0,
                    true,
                ));
            }
        }
        i += 1;
    }
    proof {
        assert(before.take(shares@.len() as int) =~= before);
    }
    *shares = kept;
}

fn same_credit(a: &Credit, b: &Credit) -> (r: bool)
    ensures
        r == (a@ == b@),
{
    if !(a.id == b.id && a.amount == b.amount && a.recipient.same_key(&b.recipient)) {
        return false;
    }
    if a.msg.len() != b.msg.len() {
        return false;
    }
    let mut i: usize = 0;
    while i < a.msg.len()
        invariant
            i <= a.msg@.len(),
            a.msg@.len() == b.msg@.len(),
            forall|j: int| 0 <= j < i ==> a.msg@[j] == b.msg@[j],
        decreases a.msg@.len() - i,
    {
        if a.msg[i] != b.msg[i] {
            return false;
        }
        i += 1;
    }
    proof {
        assert(a.msg@ =~= b.msg@);
    }
    true
}

fn same_signature(a: &Signature, b: &Signature) -> (r: bool)
    ensures
        r == (a@ == b@),
{
    let mut i: usize = 0;
    while i < 96
        invariant
            i <= 96,
            forall|j: int| 0 <= j < i ==> a.bytes@[j] == b.bytes@[j],
        decreases 96 - i,
    {
        if a.bytes[i] != b.bytes[i] {
            return false;
        }
        i += 1;
    }
    proof {
        assert(a.bytes@ =~= b.bytes@);
    }
    true
}

/// Builds the genesis credit of a section.
pub fn make_genesis_credit(section_key: &PublicKey) -> (c: Credit)
    ensures
        c@ == genesis_credit(section_key@),
{
    let mut msg: Vec<u8> = Vec::new();
    msg.push(103u8);
    msg.push(101u8);
    msg.push(110u8);
    msg.push(101u8);
    msg.push(115u8);
    msg.push(105u8);
    msg.push(115u8);
    proof {
        assert(msg@ =~= genesis_msg());
    }
    Credit { id: XorName { hi: 0, lo: 0 }, amount: GENESIS_AMOUNT, recipient: *section_key, msg }
}

/// What beginning the handshake does: a node that has not begun starts
/// round one on the genesis credit of its section, with no share yet, and
/// asks the overlay for its own. A node that has begun is refused and stays
/// at its stage. `next` is the stage after the step.
pub open spec fn begin_post(
    keys: &SectionKeys,
    stage: StageView,
    next: StageView,
    r: Result<Option<GenesisRequest>, Error>,
) -> bool {
    match stage {
        StageView::NotStarted => next == (StageView::ProposingGenesis {
            proposal: genesis_credit(keys.public_key@),
            signatures: Seq::empty(),
        }) && proposes(r, genesis_credit(keys.public_key@)),
        _ => next == stage && refused(r, Error::InvalidOperation),
    }
}

/// Begins the genesis handshake.
pub fn begin_forming_genesis_section(keys: &SectionKeys, stage: GenesisStage) -> (r: (
    GenesisStage,
    Result<Option<GenesisRequest>, Error>,
))
    ensures
        begin_post(keys, stage@, r.0@, r.1),
{
    match stage {
        GenesisStage::NotStarted => {
            let proposal = make_genesis_credit(&keys.public_key);
            let request = GenesisRequest::SignProposal(proposal.duplicate());
            let signatures: Vec<SignatureIndexShare> = Vec::new();
            proof {
                assert(shares_view(signatures@) =~= Seq::empty());
            }
            (
                GenesisStage::ProposingGenesis(GenesisProposal { proposal, signatures }),
                Ok(Some(request)),
            )
        },
        other => (other, Err(Error::InvalidOperation)),
    }
}

/// What a share of round one does, once it is known which signature the
/// shares at hand combine to: `bls_combined` is asked only when the shares
/// have reached the threshold. `next` is the stage after the step; where
/// the share is refused it is the stage before.
///
/// A node that has not begun starts round one with this share. A share
/// over a credit other than the genesis credit of the section is refused.
/// In round one the share takes the place of an earlier share of the same
/// key share; below the threshold the node goes on collecting; at the
/// threshold the node moves to round two on the credit with the combined
/// signature, with no share of round two yet, and asks the overlay for its
/// own; shares that do not combine are refused. Past round one a share of
/// round one changes nothing.
pub open spec fn proposal_post(
    keys: &SectionKeys,
    credit: CreditView,
    index: u64,
    share: Seq<u8>,
    stage: StageView,
    next: StageView,
    r: Result<Option<GenesisRequest>, Error>,
) -> bool {
    match stage {
        StageView::AccumulatingGenesis { .. } | StageView::Completed { .. } => next == stage
            && quiet(r),
        _ => if credit != genesis_credit(keys.public_key@) {
            next == stage && refused(r, Error::InvalidOperation)
        } else {
            let before = match stage {
                StageView::ProposingGenesis { signatures, .. } => signatures,
                _ => Seq::<(u64, Seq<u8>)>::empty(),
            };
            let shares = with_share(before, index, share);
            if shares.len() < keys.threshold {
                next == (StageView::ProposingGenesis { proposal: credit, signatures: shares })
                    && if stage is NotStarted {
                    proposes(r, credit)
                } else {
                    quiet(r)
                }
            } else {
                match combined(keys, shares) {
                    Some(actor_signature) => next == (StageView::AccumulatingGenesis {
                        credit,
                        actor_signature,
                        signatures: Seq::empty(),
                    }) && accumulates(r, credit, actor_signature),
                    None => next == stage && refused(r, Error::CouldNotCombineSignatures),
                }
            }
        },
    }
}

fn copy_shares(src: &Vec<SignatureIndexShare>) -> (r: Vec<SignatureIndexShare>)
    ensures
        r@ == src@,
{
    let mut r: Vec<SignatureIndexShare> = Vec::new();
    let mut i: usize = 0;
    while i < src.len()
        invariant
            i <= src@.len(),
            r@ == src@.take(i as int),
        decreases src@.len() - i,
    {
        r.push(src[i]);
        proof {
            assert(src@.take(i as int + 1) =~= src@.take(i as int).push(src@[i as int]));
        }
        i += 1;
    }
    proof {
        assert(src@.take(src@.len() as int) =~= src@);
    }
    r
}

/// Takes a share of round one.
pub fn receive_genesis_proposal(
    credit: Credit,
    sig: SignatureIndexShare,
    stage: GenesisStage,
    keys: &SectionKeys,
) -> (r: (GenesisStage, Result<Option<GenesisRequest>, Error>))
    ensures
        proposal_post(keys, credit@, sig.0, sig.1@, stage@, r.0@, r.1),
{
    let (mut signatures, fresh) = match &stage {
        GenesisStage::AccumulatingGenesis(_) => {
            return (stage, Ok(None));
        },
        GenesisStage::Completed(_) => {
            return (stage, Ok(None));
        },
        GenesisStage::ProposingGenesis(p) => (copy_shares(&p.signatures), false),
        GenesisStage::NotStarted => {
            let none: Vec<SignatureIndexShare> = Vec::new();
            proof {
                assert(shares_view(none@) =~= Seq::empty());
            }
            (none, true)
        },
    };
    let ours = make_genesis_credit(&keys.public_key);
    if !same_credit(&credit, &ours) {
        return (stage, Err(Error::InvalidOperation));
    }
    add_share(&mut signatures, sig);
    if signatures.len() < keys.threshold {
        let request = if fresh {
            Some(GenesisRequest::SignProposal(credit.duplicate()))
        } else {
            None
        };
        return (
            GenesisStage::ProposingGenesis(GenesisProposal { proposal: credit, signatures }),
            Ok(request),
        );
    }
    if !has_key_set_shape(keys.key_set.as_slice()) {
        return (stage, Err(Error::CouldNotCombineSignatures));
    }
    match combine_shares(keys.key_set.as_slice(), &signatures) {
        Some(actor_signature) => {
            let request = GenesisRequest::SignAccumulation(
                SignedCredit { credit: credit.duplicate(), actor_signature },
            );
            let none: Vec<SignatureIndexShare> = Vec::new();
            proof {
                assert(shares_view(none@) =~= Seq::empty());
            }
            (
                GenesisStage::AccumulatingGenesis(
                    GenesisAccumulation {
                        agreed_proposal: SignedCredit { credit, actor_signature },
                        signatures: none,
                    },
                ),
                Ok(Some(request)),
            )
        },
        None => (stage, Err(Error::CouldNotCombineSignatures)),
    }
}

/// What a share of round two does, once it is known which signature the
/// shares at hand combine to. `next` is the stage after the step; where the
/// share is refused it is the stage before.
///
/// A node that has completed the handshake stays as it is, and a node that
/// has not begun refuses the share. The signed credit that the share is
/// over has to be the genesis credit of the section with a signature of
/// the section over it; any other is refused. A node in round one, which
/// the other elders have overtaken, moves to round two on that signed
/// credit with this share and asks the overlay for its own. A node in round
/// two refuses a share over a signed credit other than the one it is
/// collecting for. Else the share takes the place of an earlier share of
/// the same key share; below the threshold the node goes on collecting; at
/// the threshold the handshake is complete with the proof that the shares
/// combine to; shares that do not combine are refused.
pub open spec fn accumulation_post(
    keys: &SectionKeys,
    credit: CreditView,
    actor_signature: Seq<u8>,
    index: u64,
    share: Seq<u8>,
    stage: StageView,
    next: StageView,
    r: Result<Option<GenesisRequest>, Error>,
) -> bool {
    match stage {
        StageView::Completed { .. } => next == stage && quiet(r),
        StageView::NotStarted => next == stage && refused(r, Error::InvalidOperation),
        _ => if credit != genesis_credit(keys.public_key@) {
            next == stage && refused(r, Error::InvalidOperation)
        } else if !bls_verifies(keys.public_key@, actor_signature, credit_encoding(credit)) {
            next == stage && refused(r, Error::InvalidSignature)
        } else if collects_for_another(stage, actor_signature) {
            next == stage && refused(r, Error::InvalidOperation)
        } else {
            let before = match stage {
                StageView::AccumulatingGenesis { signatures, .. } => signatures,
                _ => Seq::<(u64, Seq<u8>)>::empty(),
            };
            let shares = with_share(before, index, share);
            if shares.len() < keys.threshold {
                next == (StageView::AccumulatingGenesis {
                    credit,
                    actor_signature,
                    signatures: shares,
                }) && if stage is ProposingGenesis {
                    accumulates(r, credit, actor_signature)
                } else {
                    quiet(r)
                }
            } else {
                match combined(keys, shares) {
                    Some(debiting_replicas_sig) => next == (StageView::Completed {
                        credit_proof: ProofView {
                            credit,
                            actor_signature,
                            debiting_replicas_sig,
                            debiting_replicas_keys: keys.public_key@,
                        },
                    }) && quiet(r),
                    None => next == stage && refused(r, Error::CouldNotCombineSignatures),
                }
            }
        },
    }
}

/// Takes a share of round two.
pub fn receive_genesis_accumulation(
    signed_credit: SignedCredit,
    sig: SignatureIndexShare,
    stage: GenesisStage,
    keys: &SectionKeys,
) -> (r: (GenesisStage, Result<Option<GenesisRequest>, Error>))
    ensures
        accumulation_post(
            keys,
            signed_credit.credit@,
            signed_credit.actor_signature@,
            sig.0,
            sig.1@,
            stage@,
            r.0@,
            r.1,
        ),
{
    let (mut signatures, collecting) = match &stage {
        GenesisStage::Completed(_) => {
            return (stage, Ok(None));
        },
        GenesisStage::NotStarted => {
            return (stage, Err(Error::InvalidOperation));
        },
        GenesisStage::ProposingGenesis(_) => {
            let none: Vec<SignatureIndexShare> = Vec::new();
            proof {
                assert(shares_view(none@) =~= Seq::empty());
            }
            (none, None)
        },
        GenesisStage::AccumulatingGenesis(a) => (
            copy_shares(&a.signatures),
            Some(a.agreed_proposal.actor_signature),
        ),
    };
    let ours = make_genesis_credit(&keys.public_key);
    if !same_credit(&signed_credit.credit, &ours) {
        return (stage, Err(Error::InvalidOperation));
    }
    let mut bytes: Vec<u8> = Vec::new();
    encode_credit(&mut bytes, &signed_credit.credit);
    if !signature_verifies(&keys.public_key, &signed_credit.actor_signature, bytes.as_slice()) {
        return (stage, Err(Error::InvalidSignature));
    }
    match collecting {
        Some(theirs) => {
            if !same_signature(&theirs, &signed_credit.actor_signature) {
                return (stage, Err(Error::InvalidOperation));
            }
        },
        None => {},
    }
    add_share(&mut signatures, sig);
    if signatures.len() < keys.threshold {
        let request = match collecting {
            None => Some(
                GenesisRequest::SignAccumulation(
                    SignedCredit {
                        credit: signed_credit.credit.duplicate(),
                        actor_signature: signed_credit.actor_signature,
                    },
                ),
            ),
            Some(_) => None,
        };
        return (
            GenesisStage::AccumulatingGenesis(
                GenesisAccumulation { agreed_proposal: signed_credit, signatures },
            ),
            Ok(request),
        );
    }
    if !has_key_set_shape(keys.key_set.as_slice()) {
        return (stage, Err(Error::CouldNotCombineSignatures));
    }
    match combine_shares(keys.key_set.as_slice(), &signatures) {
        Some(debiting_replicas_sig) => (
            GenesisStage::Completed(
                CreditAgreementProof {
                    signed_credit,
                    debiting_replicas_sig,
                    debiting_replicas_keys: keys.public_key,
                },
            ),
            Ok(None),
        ),
        None => (stage, Err(Error::CouldNotCombineSignatures)),
    }
}

} // verus!
