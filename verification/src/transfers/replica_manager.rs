//! The replica of the wallets that a section answers for: it checks the
//! proof of every credit, records each step of a transfer once, and keeps
//! for every wallet a balance that is the fold of its history.

use crate::codec::{decode_name, name_from_bytes};
use crate::crypto::{bls_verifies, digest, sha3_256, signature_verifies};
use crate::messages::{byte_strings, Error, PublicKey};
use crate::name::XorName;
use crate::transfers::events::{
    decode_event, encode_event, encode_signed_credit, encode_transfer, event_amount,
    event_encoding, event_views, fold, lemma_event_parse_is_sound, lemma_event_reads_back,
    lemma_fold_push, parse_event, signed_credit_encoding, transfer_encoding, valid_event, CreditAgreementProof,
    CreditView, EventView, ProofView, ReplicaEvent, SignedTransfer,
};
use crate::transfers::store::{
    lemma_append_extends_log, lemma_next_key_is_free, log_path, TransferStore, DB_EXTENSION,
};
use vstd::prelude::*;

verus! {

/// The name under which the log of a wallet is kept: the fingerprint of the
/// key of its owner.
pub open spec fn wallet_name(key: Seq<u8>) -> XorName {
    name_from_bytes(sha3_256(key))
}

/// The bytes that a history is logged as, event by event.
pub open spec fn encodings(history: Seq<EventView>) -> Seq<Seq<u8>> {
    Seq::new(history.len(), |i: int| event_encoding(history[i]))
}

/// The history records the credit `id` at the given step: as propagated, or
/// else as registered.
pub open spec fn recorded(history: Seq<EventView>, id: XorName, propagated: bool) -> bool {
    exists|i: int|
        0 <= i < history.len() && match #[trigger] history[i] {
            EventView::TransferPropagated { credit_proof } => propagated && credit_proof.credit.id
                == id,
            EventView::TransferRegistered { credit_proof } => !propagated && credit_proof.credit.id
                == id,
            _ => false,
        }
}

/// The event that records a proof at the given step.
pub open spec fn step_event(p: ProofView, propagated: bool) -> EventView {
    if propagated {
        EventView::TransferPropagated { credit_proof: p }
    } else {
        EventView::TransferRegistered { credit_proof: p }
    }
}

/// One wallet at a replica.
pub struct Wallet {
    pub owner_key: PublicKey,
    pub balance: u64,
    pub history: Vec<ReplicaEvent>,
    pub log: TransferStore,
}

impl Wallet {
    /// The balance is the fold of the history, and the log holds the
    /// history, event by event, at positions contiguous from 0.
    pub open spec fn wf(&self) -> bool {
        &&& self.balance == fold(event_views(self.history@))
        &&& self.log.is_log()
        &&& self.log.history() == encodings(event_views(self.history@))
    }

    /// The log is the file of this wallet in the directory `dir`: the one
    /// named by the fingerprint of the owner's key.
    pub open spec fn kept_in(&self, dir: Seq<char>) -> bool {
        self.log.path() == log_path(dir, wallet_name(self.owner_key@), DB_EXTENSION@)
    }
}

/// The events that the entries of a log read as.
pub open spec fn parsed(h: Seq<Seq<u8>>) -> Seq<EventView> {
    Seq::new(h.len(), |i: int| parse_event(h[i])->Some_0)
}

/// The entries of a log can be replayed into a wallet: every entry reads
/// as an event, and a balance can hold what the events fold to.
pub open spec fn replayable(h: Seq<Seq<u8>>) -> bool {
    &&& forall|i: int| 0 <= i < h.len() ==> parse_event(#[trigger] h[i]) is Some
    &&& fold(parsed(h)) <= u64::MAX
}

/// A history folds to no less than any of its beginnings.
pub proof fn lemma_fold_grows(h: Seq<EventView>, i: int)
    requires
        0 <= i <= h.len(),
    ensures
        fold(h.take(i)) <= fold(h),
    decreases h.len() - i,
{
    if i < h.len() {
        lemma_fold_grows(h, i + 1);
        assert(h.take(i + 1).drop_last() =~= h.take(i));
    } else {
        assert(h.take(i) =~= h);
    }
}

/// What a log that was opened comes to as the wallet of `key`, for each
/// log: a store that is a log whose entries can be replayed is the wallet
/// with the history that the entries read as and the balance that they
/// fold to, kept in that log; any other store is refused with `Storage`.
pub fn wallet_of_log(key: PublicKey, log: TransferStore) -> (r: Result<Wallet, Error>)
    ensures
        r is Ok <==> log.is_log() && replayable(log.history()),
        r matches Ok(w) ==> w.wf() && w.owner_key == key && w.log == log && event_views(w.history@)
            == parsed(log.history()) && encodings(event_views(w.history@)) == log.history(),
        r matches Err(e) ==> e == Error::Storage,
{
    if !log.is_intact() {
        return Err(Error::Storage);
    }
    let stored = log.get_all();
    let ghost h = log.history();
    let mut history: Vec<ReplicaEvent> = Vec::new();
    let mut balance: u64 = 0;
    let mut i: usize = 0;
    proof {
        assert(event_views(history@) =~= parsed(h).take(0));
    }
    while i < stored.len()
        invariant
            i <= stored@.len(),
            h == log.history(),
            log.is_log(),
            byte_strings(stored@) == h,
            history@.len() == i,
            forall|j: int| 0 <= j < i ==> parse_event(#[trigger] h[j]) is Some,
            event_views(history@) == parsed(h).take(i as int),
            balance == fold(event_views(history@)),
        decreases stored@.len() - i,
    {
        proof {
            assert(h[i as int] == stored@[i as int]@);
            assert(parsed(h).take(i as int + 1).drop_last() =~= parsed(h).take(i as int));
            lemma_fold_grows(parsed(h), i as int + 1);
        }
        let event = match decode_event(stored[i].as_slice()) {
            Some(e) => e,
            None => {
                return Err(Error::Storage);
            },
        };
        let amount = match &event {
            ReplicaEvent::TransferPropagated { credit_proof } => credit_proof.amount(),
            _ => 0,
        };
        proof {
            assert(parsed(h).take(i as int + 1).last() == event@);
        }
        if amount > u64::MAX - balance {
            return Err(Error::Storage);
        }
        let ghost h0 = history@;
        balance = balance + amount;
        history.push(event);
        proof {
            assert(event_views(history@) =~= event_views(h0).push(event@));
            assert(event_views(history@) =~= parsed(h).take(i as int + 1));
        }
        i += 1;
    }
    proof {
        assert(h.len() == stored@.len());
        assert(parsed(h).take(i as int) =~= parsed(h));
        assert forall|j: int| 0 <= j < h.len() implies event_encoding(parsed(h)[j]) == h[j] by {
            lemma_event_parse_is_sound(h[j]);
        }
        assert(encodings(event_views(history@)) =~= h);
    }
    Ok(Wallet { owner_key: key, balance, history, log })
}

/// What a log that was opened comes to as the log of a wallet that the
/// replica has not got: an empty store is that log; a store that holds
/// anything belongs to a wallet that has to be loaded first, and is
/// refused with `Storage`, as is a log that could not be opened.
pub fn as_new_log(opened: Result<TransferStore, Error>) -> (r: Result<TransferStore, Error>)
    ensures
        r is Ok <==> (opened matches Ok(s) && s.count() == 0),
        r matches Ok(s) ==> opened == Ok::<TransferStore, Error>(s) && s.is_log(),
        r matches Err(e) ==> e == Error::Storage,
{
    match opened {
        Ok(log) => {
            if log.len() != 0 {
                return Err(Error::Storage);
            }
            Ok(log)
        },
        Err(_) => Err(Error::Storage),
    }
}

/// The replica.
pub struct ReplicaManager {
    pub transfers_dir: String,
    pub section_key: Option<PublicKey>,
    pub key_index: u64,
    pub section_chain: Vec<PublicKey>,
    pub byte_price: u64,
    pub wallets: Vec<Wallet>,
}

impl ReplicaManager {
    /// Every wallet is well formed and logged in its own file in the
    /// directory of the transfer logs, and no two wallets have one owner.
    pub open spec fn wf(&self) -> bool {
        &&& forall|i: int| 0 <= i < self.wallets@.len() ==> (#[trigger] self.wallets@[i]).wf()
        &&& forall|i: int|
            0 <= i < self.wallets@.len() ==> (#[trigger] self.wallets@[i]).kept_in(
                self.transfers_dir@,
            )
        &&& forall|i: int, j: int|
            0 <= i < j < self.wallets@.len() ==> self.wallets@[i].owner_key@
                != self.wallets@[j].owner_key@
    }

    /// A wallet is kept for `key`.
    pub open spec fn has_wallet(&self, key: Seq<u8>) -> bool {
        exists|i: int| 0 <= i < self.wallets@.len() && self.wallets@[i].owner_key@ == key
    }

    /// The history of the wallet of `key`, empty where none is kept.
    pub open spec fn events_of(&self, key: Seq<u8>) -> Seq<EventView> {
        if self.has_wallet(key) {
            let i = choose|i: int| 0 <= i < self.wallets@.len() && self.wallets@[i].owner_key@ == key;
            event_views(self.wallets@[i].history@)
        } else {
            Seq::empty()
        }
    }

    /// The balance of the wallet of `key`: the fold of its history.
    pub open spec fn balance_of(&self, key: Seq<u8>) -> nat {
        fold(self.events_of(key))
    }

    /// The section chain holds `key`.
    pub open spec fn chain_has(&self, key: Seq<u8>) -> bool {
        exists|i: int| 0 <= i < self.section_chain@.len() && self.section_chain@[i]@ == key
    }

    /// What the replica knows of its section did not change.
    pub open spec fn same_section(&self, after: &ReplicaManager) -> bool {
        &&& after.transfers_dir@ == self.transfers_dir@
        &&& after.section_key == self.section_key
        &&& after.key_index == self.key_index
        &&& after.section_chain@ == self.section_chain@
        &&& after.byte_price == self.byte_price
    }

    /// No wallet changed.
    pub open spec fn same_wallets(&self, after: &ReplicaManager) -> bool {
        forall|k: Seq<u8>| after.events_of(k) == self.events_of(k)
    }

    /// The wallet of `key` has one more event, and no other wallet changed.
    pub open spec fn added(&self, after: &ReplicaManager, key: Seq<u8>, event: EventView) -> bool {
        &&& after.events_of(key) == self.events_of(key).push(event)
        &&& forall|k: Seq<u8>| k != key ==> after.events_of(k) == self.events_of(k)
    }

    /// Whether a proof stands: the section that signed it did sign it, and
    /// its key is one of the section chain.
    pub open spec fn check_proof(&self, p: ProofView) -> Result<(), Error> {
        if !bls_verifies(
            p.debiting_replicas_keys,
            p.debiting_replicas_sig,
            signed_credit_encoding(p.credit, p.actor_signature),
        ) {
            Err(Error::InvalidSignature)
        } else if !self.chain_has(p.debiting_replicas_keys) {
            Err(Error::UnknownSectionKey)
        } else {
            Ok(())
        }
    }

    /// What recording a proof does. A proof that does not stand is refused
    /// and nothing changes. A credit that the wallet has recorded at this
    /// step is not recorded again. A credit that would take the balance
    /// past the largest amount is refused. Else the event is logged and
    /// joins the history, unless the log refuses the write, in which case
    /// nothing changes.
    pub open spec fn record_post(
        &self,
        after: &ReplicaManager,
        p: ProofView,
        propagated: bool,
        r: Result<bool, Error>,
    ) -> bool {
        let key = p.credit.recipient;
        &&& self.same_section(after)
        &&& match self.check_proof(p) {
            Err(e) => r == Err::<bool, Error>(e) && self.same_wallets(after),
            Ok(_) => if recorded(self.events_of(key), p.credit.id, propagated) {
                r == Ok::<bool, Error>(false) && self.same_wallets(after)
            } else if propagated && self.balance_of(key) + p.credit.amount > u64::MAX {
                r == Err::<bool, Error>(Error::ExcessiveValue) && self.same_wallets(after)
            } else {
                ||| r == Ok::<bool, Error>(true) && self.added(
                    after,
                    key,
                    step_event(p, propagated),
                )
                ||| r == Err::<bool, Error>(Error::Storage) && self.same_wallets(after)
            },
        }
    }

    /// A replica without wallets.
    pub fn new(
        transfers_dir: String,
        section_key: Option<PublicKey>,
        key_index: u64,
        section_chain: Vec<PublicKey>,
        byte_price: u64,
    ) -> (r: ReplicaManager)
        ensures
            r.wf(),
            r.transfers_dir@ == transfers_dir@,
            r.section_key == section_key,
            r.key_index == key_index,
            r.section_chain@ == section_chain@,
            r.byte_price == byte_price,
            forall|k: Seq<u8>| r.events_of(k).len() == 0,
    {
        ReplicaManager {
            transfers_dir,
            section_key,
            key_index,
            section_chain,
            byte_price,
            wallets: Vec::new(),
        }
    }

    /// The public key of the section, where one is known.
    pub fn replicas_pk_set(&self) -> (r: Option<PublicKey>)
        ensures
            r == self.section_key,
    {
        self.section_key
    }

    /// The cost of storing `num_bytes`: the price of a byte times the size,
    /// where a `u64` can hold it.
    pub fn get_store_cost(&self, num_bytes: u64) -> (r: Option<u64>)
        ensures
            r == if self.byte_price * num_bytes <= u64::MAX {
                Some((self.byte_price * num_bytes) as u64)
            } else {
                None
            },
    {
        if num_bytes == 0 {
            assert(self.byte_price * num_bytes == 0) by (nonlinear_arith)
                requires
                    num_bytes == 0,
            ;
            return Some(0);
        }
        let limit = u64::MAX / num_bytes;
        if self.byte_price > limit {
            assert(self.byte_price * num_bytes > u64::MAX) by (nonlinear_arith)
                requires
                    num_bytes > 0,
                    self.byte_price > limit,
                    limit == u64::MAX / num_bytes,
            ;
            None
        } else {
            assert(self.byte_price * num_bytes <= u64::MAX) by (nonlinear_arith)
                requires
                    num_bytes > 0,
                    self.byte_price <= limit,
                    limit == u64::MAX / num_bytes,
            ;
            Some(self.byte_price * num_bytes)
        }
    }

    fn find_wallet(&self, key: &PublicKey) -> (r: Option<usize>)
        requires
            self.wf(),
        ensures
            r is Some <==> self.has_wallet(key@),
            r matches Some(i) ==> i < self.wallets@.len() && self.wallets@[i as int].owner_key@
                == key@ && self.events_of(key@) == event_views(self.wallets@[i as int].history@),
            r is None ==> self.events_of(key@).len() == 0,
    {
        let mut i: usize = 0;
        while i < self.wallets.len()
            invariant
                self.wf(),
                i <= self.wallets@.len(),
                forall|j: int| 0 <= j < i ==> self.wallets@[j].owner_key@ != key@,
            decreases self.wallets@.len() - i,
        {
            if self.wallets[i].owner_key.same_key(key) {
                proof {
                    let c = choose|c: int|
                        0 <= c < self.wallets@.len() && self.wallets@[c].owner_key@ == key@;
                    assert(c == i);
                }
                return Some(i);
            }
            i += 1;
        }
        None
    }

    fn chain_holds(&self, key: &PublicKey) -> (r: bool)
        ensures
            r == self.chain_has(key@),
    {
        let mut i: usize = 0;
        while i < self.section_chain.len()
            invariant
                i <= self.section_chain@.len(),
                forall|j: int| 0 <= j < i ==> self.section_chain@[j]@ != key@,
            decreases self.section_chain@.len() - i,
        {
            if self.section_chain[i].same_key(key) {
                return true;
            }
            i += 1;
        }
        false
    }

    fn proof_stands(&self, credit_proof: &CreditAgreementProof) -> (r: Result<(), Error>)
        ensures
            r == self.check_proof(credit_proof@),
    {
        let signed = encode_signed_credit(&credit_proof.signed_credit);
        if !signature_verifies(
            &credit_proof.debiting_replicas_keys,
            &credit_proof.debiting_replicas_sig,
            signed.as_slice(),
        ) {
            return Err(Error::InvalidSignature);
        }
        if !self.chain_holds(&credit_proof.debiting_replicas_keys) {
            return Err(Error::UnknownSectionKey);
        }
        Ok(())
    }

    fn has_recorded(history: &Vec<ReplicaEvent>, id: &XorName, propagated: bool) -> (r: bool)
        ensures
            r == recorded(event_views(history@), *id, propagated),
    {
        let mut i: usize = 0;
        while i < history.len()
            invariant
                i <= history@.len(),
                forall|j: int|
                    0 <= j < i ==> !(match #[trigger] event_views(history@)[j] {
                        EventView::TransferPropagated { credit_proof } => propagated
                            && credit_proof.credit.id == *id,
                        EventView::TransferRegistered { credit_proof } => !propagated
                            && credit_proof.credit.id == *id,
                        _ => false,
                    }),
            decreases history@.len() - i,
        {
            let hit = match &history[i] {
                ReplicaEvent::TransferPropagated { credit_proof } => propagated && credit_proof.id()
                    == *id,
                ReplicaEvent::TransferRegistered { credit_proof } => !propagated
                    && credit_proof.id() == *id,
                _ => false,
            };
            if hit {
                proof {
                    let v = event_views(history@)[i as int];
                    assert(v == history@[i as int]@);
                }
                return true;
            }
            proof {
                assert(event_views(history@)[i as int] == history@[i as int]@);
            }
            i += 1;
        }
        false
    }

    fn open_log(&self, key: &PublicKey) -> (r: Result<TransferStore, Error>)
        ensures
            match r {
                Ok(log) => log.is_log() && log.count() == 0 && log.path() == log_path(
                    self.transfers_dir@,
                    wallet_name(key@),
                    DB_EXTENSION@,
                ),
                Err(e) => e == Error::Storage,
            },
    {
        let d = digest(key.bytes.as_slice());
        let name = decode_name(&d);
        as_new_log(TransferStore::new(name, self.transfers_dir.as_str()))
    }

    fn record(&mut self, credit_proof: &CreditAgreementProof, propagated: bool) -> (r: Result<
        bool,
        Error,
    >)
        requires
            old(self).wf(),
        ensures
            final(self).wf(),
            old(self).record_post(final(self), credit_proof@, propagated, r),
    {
        match self.proof_stands(credit_proof) {
            Err(e) => {
                return Err(e);
            },
            Ok(_) => {},
        }
        let key = credit_proof.to();
        let amount = credit_proof.amount();
        let event = if propagated {
            ReplicaEvent::TransferPropagated { credit_proof: credit_proof.duplicate() }
        } else {
            ReplicaEvent::TransferRegistered { credit_proof: credit_proof.duplicate() }
        };
        proof {
            assert(event@ == step_event(credit_proof@, propagated));
        }
        self.append(&key, event, if propagated {
            amount
        } else {
            0
        }, Some((credit_proof.id(), propagated)))
    }

    /// What appending an event to the wallet of `key` does: `once` names a
    /// credit and a step that is recorded at most once; `amount` is what the
    /// event adds to the balance.
    pub open spec fn append_post(
        &self,
        after: &ReplicaManager,
        key: Seq<u8>,
        event: EventView,
        once: Option<(XorName, bool)>,
        r: Result<bool, Error>,
    ) -> bool {
        &&& self.same_section(after)
        &&& if once matches Some((id, propagated)) && recorded(self.events_of(key), id, propagated) {
            r == Ok::<bool, Error>(false) && self.same_wallets(after)
        } else if self.balance_of(key) + event_amount(event) > u64::MAX {
            r == Err::<bool, Error>(Error::ExcessiveValue) && self.same_wallets(after)
        } else {
            ||| r == Ok::<bool, Error>(true) && self.added(after, key, event)
            ||| r == Err::<bool, Error>(Error::Storage) && self.same_wallets(after)
        }
    }

    fn append(
        &mut self,
        key: &PublicKey,
        event: ReplicaEvent,
        amount: u64,
        once: Option<(XorName, bool)>,
    ) -> (r: Result<bool, Error>)
        requires
            old(self).wf(),
            amount == event_amount(event@),
        ensures
            final(self).wf(),
            old(self).append_post(final(self), key@, event@, once, r),
    {
        let found = self.find_wallet(key);
        match found {
            Some(i) => {
                match once {
                    Some((id, propagated)) => {
                        if Self::has_recorded(&self.wallets[i].history, &id, propagated) {
                            return Ok(false);
                        }
                    },
                    None => {},
                }
                if amount > u64::MAX - self.wallets[i].balance {
                    return Err(Error::ExcessiveValue);
                }
                if self.wallets[i].history.len() == usize::MAX {
                    return Err(Error::Storage);
                }
                let bytes = encode_event(&event);
                let ghost before = self.wallets@[i as int];
                let mut wallet = self.wallets.remove(i);
                match wallet.log.try_insert(bytes) {
                    Err(_) => {
                        proof {
                            assert(wallet.log.same(&before.log)) by {
                                assert(before.log.same(&wallet.log));
                            }
                        }
                        let ghost restored = wallet;
                        self.wallets.insert(i, wallet);
                        proof {
                            lemma_same_log_same_wallet(before, restored);
                            self.lemma_replaced(*old(self), i as int);
                        }
                        Err(Error::Storage)
                    },
                    Ok(_) => {
                        proof {
                            assert(before.log.history().len() == before.log.count());
                            assert(encodings(event_views(before.history@)).len()
                                == before.history@.len());
                            lemma_append_extends_log(before.log, wallet.log, event_encoding(event@));
                            lemma_fold_push(event_views(before.history@), event@);
                        }
                        wallet.balance = wallet.balance + amount;
                        wallet.history.push(event);
                        proof {
                            assert(event_views(wallet.history@) =~= event_views(before.history@).push(
                                event@,
                            ));
                            assert(encodings(event_views(wallet.history@)) =~= encodings(
                                event_views(before.history@),
                            ).push(event_encoding(event@)));
                        }
                        let ghost updated = wallet;
                        self.wallets.insert(i, wallet);
                        proof {
                            self.lemma_replaced(*old(self), i as int);
                        }
                        Ok(true)
                    },
                }
            },
            None => {
                proof {
                    assert(fold(Seq::<EventView>::empty()) == 0);
                    assert(old(self).events_of(key@) =~= Seq::<EventView>::empty());
                }
                let mut log = self.open_log(key)?;
                let bytes = encode_event(&event);
                let ghost empty = log;
                match log.try_insert(bytes) {
                    Err(_) => Err(Error::Storage),
                    Ok(_) => {
                        proof {
                            lemma_append_extends_log(empty, log, event_encoding(event@));
                            lemma_fold_push(Seq::<EventView>::empty(), event@);
                            assert(empty.history() =~= Seq::<Seq<u8>>::empty());
                        }
                        let mut history: Vec<ReplicaEvent> = Vec::new();
                        history.push(event);
                        proof {
                            assert(event_views(history@) =~= Seq::<EventView>::empty().push(event@));
                            assert(encodings(event_views(history@)) =~= Seq::<Seq<u8>>::empty().push(
                                event_encoding(event@),
                            ));
                        }
                        let wallet = Wallet { owner_key: *key, balance: amount, history, log };
                        self.wallets.push(wallet);
                        proof {
                            self.lemma_joined(*old(self));
                        }
                        Ok(true)
                    },
                }
            },
        }
    }

    proof fn lemma_replaced(self, before: ReplicaManager, i: int)
        requires
            before.wf(),
            0 <= i < before.wallets@.len(),
            self.wallets@.len() == before.wallets@.len(),
            forall|j: int| 0 <= j < before.wallets@.len() && j != i ==> self.wallets@[j]
                == before.wallets@[j],
            self.wallets@[i].owner_key@ == before.wallets@[i].owner_key@,
            self.wallets@[i].wf(),
            self.wallets@[i].log.path() == before.wallets@[i].log.path(),
            self.transfers_dir@ == before.transfers_dir@,
        ensures
            self.wf(),
            self.events_of(before.wallets@[i].owner_key@) == event_views(
                self.wallets@[i].history@,
            ),
            before.events_of(before.wallets@[i].owner_key@) == event_views(
                before.wallets@[i].history@,
            ),
            forall|k: Seq<u8>|
                k != before.wallets@[i].owner_key@ ==> self.events_of(k) == before.events_of(k),
    {
        let key = before.wallets@[i].owner_key@;
        assert(self.wf()) by {
            assert forall|a: int| 0 <= a < self.wallets@.len() implies (
            #[trigger] self.wallets@[a]).wf() by {
                if a != i {
                    assert(before.wallets@[a].wf());
                }
            }
        }
        assert forall|k: Seq<u8>| k != key implies self.events_of(k) == before.events_of(k) by {
            if before.has_wallet(k) {
                let c = choose|c: int|
                    0 <= c < before.wallets@.len() && before.wallets@[c].owner_key@ == k;
                assert(self.wallets@[c].owner_key@ == k);
                let d = choose|d: int|
                    0 <= d < self.wallets@.len() && self.wallets@[d].owner_key@ == k;
                assert(d == c);
            } else if self.has_wallet(k) {
                let d = choose|d: int|
                    0 <= d < self.wallets@.len() && self.wallets@[d].owner_key@ == k;
                assert(before.wallets@[d].owner_key@ == k);
            }
        }
        let c = choose|c: int| 0 <= c < before.wallets@.len() && before.wallets@[c].owner_key@ == key;
        assert(c == i);
        let d = choose|d: int| 0 <= d < self.wallets@.len() && self.wallets@[d].owner_key@ == key;
        assert(d == i);
    }

    proof fn lemma_joined(self, before: ReplicaManager)
        requires
            before.wf(),
            self.wallets@.len() == before.wallets@.len() + 1,
            forall|j: int| 0 <= j < before.wallets@.len() ==> self.wallets@[j] == before.wallets@[j],
            !before.has_wallet(self.wallets@.last().owner_key@),
            self.wallets@.last().wf(),
            self.wallets@.last().kept_in(self.transfers_dir@),
            self.transfers_dir@ == before.transfers_dir@,
        ensures
            self.wf(),
            self.events_of(self.wallets@.last().owner_key@) == event_views(
                self.wallets@.last().history@,
            ),
            forall|k: Seq<u8>|
                k != self.wallets@.last().owner_key@ ==> self.events_of(k) == before.events_of(k),
    {
        let n = before.wallets@.len() as int;
        let key = self.wallets@.last().owner_key@;
        assert(self.wf()) by {
            assert forall|a: int| 0 <= a < self.wallets@.len() implies (
            #[trigger] self.wallets@[a]).wf() by {
                if a < n {
                    assert(before.wallets@[a].wf());
                }
            }
            assert forall|a: int, b: int| 0 <= a < b < self.wallets@.len() implies self.wallets@[a].owner_key@
                != self.wallets@[b].owner_key@ by {
                if b == n {
                    assert(before.wallets@[a].owner_key@ != key);
                }
            }
        }
        assert forall|k: Seq<u8>| k != key implies self.events_of(k) == before.events_of(k) by {
            if before.has_wallet(k) {
                let c = choose|c: int|
                    0 <= c < before.wallets@.len() && before.wallets@[c].owner_key@ == k;
                assert(self.wallets@[c].owner_key@ == k);
                let d = choose|d: int|
                    0 <= d < self.wallets@.len() && self.wallets@[d].owner_key@ == k;
                assert(d == c);
            } else if self.has_wallet(k) {
                let d = choose|d: int|
                    0 <= d < self.wallets@.len() && self.wallets@[d].owner_key@ == k;
                assert(before.wallets@[d].owner_key@ == k);
            }
        }
        assert(self.wallets@[n].owner_key@ == key);
        let d = choose|d: int| 0 <= d < self.wallets@.len() && self.wallets@[d].owner_key@ == key;
        assert(d == n);
    }

    /// The section of the paying wallet has agreed to a credit: the replica
    /// checks the proof and records the credit as registered in the wallet
    /// that receives it. The answer tells whether an event was recorded.
    pub fn register(&mut self, credit_proof: &CreditAgreementProof) -> (r: Result<bool, Error>)
        requires
            old(self).wf(),
        ensures
            final(self).wf(),
            old(self).record_post(final(self), credit_proof@, false, r),
    {
        self.record(credit_proof, false)
    }

    /// A credit has reached the wallet that receives it: the replica checks
    /// the proof and records the credit as propagated, which adds its amount
    /// to the balance. The answer tells whether an event was recorded.
    pub fn receive_propagated(&mut self, credit_proof: &CreditAgreementProof) -> (r: Result<
        bool,
        Error,
    >)
        requires
            old(self).wf(),
        ensures
            final(self).wf(),
            old(self).record_post(final(self), credit_proof@, true, r),
    {
        self.record(credit_proof, true)
    }

    /// What validating a transfer does. A transfer that its actor did not
    /// sign is refused, then one that the balance of the paying wallet
    /// does not cover. Else the validation is logged in the history of the
    /// paying wallet under the index of this replica's key share, unless
    /// the log refuses the write.
    pub open spec fn validate_post(
        &self,
        after: &ReplicaManager,
        sender: Seq<u8>,
        credit: CreditView,
        actor_signature: Seq<u8>,
        r: Result<bool, Error>,
    ) -> bool {
        &&& self.same_section(after)
        &&& if !bls_verifies(sender, actor_signature, transfer_encoding(sender, credit)) {
            r == Err::<bool, Error>(Error::InvalidSignature) && self.same_wallets(after)
        } else if self.balance_of(sender) < credit.amount {
            r == Err::<bool, Error>(Error::InsufficientBalance) && self.same_wallets(after)
        } else {
            ||| r == Ok::<bool, Error>(true) && self.added(
                after,
                sender,
                EventView::TransferValidated {
                    sender,
                    credit,
                    actor_signature,
                    replica: self.key_index,
                },
            )
            ||| r == Err::<bool, Error>(Error::Storage) && self.same_wallets(after)
        }
    }

    /// Validates a transfer that an actor asks for. The overlay signs the
    /// validation with this replica's key share.
    pub fn validate(&mut self, signed_transfer: SignedTransfer) -> (r: Result<bool, Error>)
        requires
            old(self).wf(),
        ensures
            final(self).wf(),
            old(self).validate_post(
                final(self),
                signed_transfer.sender@,
                signed_transfer.credit@,
                signed_transfer.actor_signature@,
                r,
            ),
    {
        let bytes = encode_transfer(&signed_transfer);
        if !signature_verifies(
            &signed_transfer.sender,
            &signed_transfer.actor_signature,
            bytes.as_slice(),
        ) {
            return Err(Error::InvalidSignature);
        }
        let sender = signed_transfer.sender;
        if self.balance(&sender) < signed_transfer.credit.amount {
            return Err(Error::InsufficientBalance);
        }
        let replica = self.key_index;
        let event = ReplicaEvent::TransferValidated { signed_transfer, replica };
        self.append(&sender, event, 0, None)
    }

    /// What loading a wallet does. A wallet that the replica has in memory
    /// stays as it is. Else the log of the wallet is opened and read: where
    /// it is a log of events whose amounts a balance can hold, the wallet
    /// joins the replica with the history that the log holds, which may be
    /// empty; where the file cannot be opened or holds anything else, the
    /// answer is `Storage` and no wallet changes.
    pub open spec fn load_wallet_post(
        &self,
        after: &ReplicaManager,
        key: Seq<u8>,
        r: Result<bool, Error>,
    ) -> bool {
        &&& self.same_section(after)
        &&& forall|k: Seq<u8>| k != key ==> after.events_of(k) == self.events_of(k)
        &&& if self.has_wallet(key) {
            r == Ok::<bool, Error>(false) && self.same_wallets(after)
        } else {
            ||| r == Ok::<bool, Error>(true) && after.has_wallet(key)
            ||| r == Err::<bool, Error>(Error::Storage) && self.same_wallets(after)
        }
    }

    /// Loads the wallet of `key` from its log, as after a restart: the log
    /// is opened and `wallet_of_log` says what it comes to. The answer tells
    /// whether a wallet was loaded.
    pub fn load_wallet(&mut self, key: &PublicKey) -> (r: Result<bool, Error>)
        requires
            old(self).wf(),
        ensures
            final(self).wf(),
            old(self).load_wallet_post(final(self), key@, r),
    {
        if self.find_wallet(key).is_some() {
            return Ok(false);
        }
        let d = digest(key.bytes.as_slice());
        let name = decode_name(&d);
        let log = match TransferStore::new(name, self.transfers_dir.as_str()) {
            Ok(log) => log,
            Err(_) => {
                return Err(Error::Storage);
            },
        };
        let wallet = match wallet_of_log(*key, log) {
            Ok(wallet) => wallet,
            Err(_) => {
                return Err(Error::Storage);
            },
        };
        self.wallets.push(wallet);
        proof {
            self.lemma_joined(*old(self));
            assert(self.wallets@[self.wallets@.len() - 1].owner_key@ == key@);
        }
        Ok(true)
    }

    /// The balance of the wallet of `key`.
    pub fn balance(&self, key: &PublicKey) -> (r: u64)
        requires
            self.wf(),
        ensures
            r == self.balance_of(key@),
    {
        match self.find_wallet(key) {
            Some(i) => self.wallets[i].balance,
            None => {
                proof {
                    assert(self.events_of(key@) =~= Seq::<EventView>::empty());
                }
                0
            },
        }
    }

    /// The events of the wallet of `key` as its log holds them, in the order
    /// in which they were recorded.
    pub fn get_all(&self, key: &PublicKey) -> (r: Vec<Vec<u8>>)
        requires
            self.wf(),
        ensures
            byte_strings(r@) == encodings(self.events_of(key@)),
    {
        match self.find_wallet(key) {
            Some(i) => self.wallets[i].log.get_all(),
            None => {
                let r: Vec<Vec<u8>> = Vec::new();
                proof {
                    assert(byte_strings(r@) =~= encodings(self.events_of(key@)));
                }
                r
            },
        }
    }
}

proof fn lemma_same_log_same_wallet(before: Wallet, after: Wallet)
    requires
        before.wf(),
        before.log.same(&after.log),
        after.balance == before.balance,
        after.history == before.history,
    ensures
        after.wf(),
{
    assert(after.log.history() =~= before.log.history());
}

/// In every wallet of a replica the balance is the fold of the history, and
/// the log holds the history at positions contiguous from 0.
pub proof fn lemma_wallet_invariant(replica: ReplicaManager, i: int)
    requires
        replica.wf(),
        0 <= i < replica.wallets@.len(),
    ensures
        replica.wallets@[i].balance == fold(event_views(replica.wallets@[i].history@)),
        replica.wallets@[i].balance == replica.balance_of(replica.wallets@[i].owner_key@),
        replica.wallets@[i].log.count() == replica.wallets@[i].history@.len(),
        forall|j: nat|
            j < replica.wallets@[i].history@.len() ==> replica.wallets@[i].log.keys().contains(
                #[trigger] crate::transfers::store::decimal(j),
            ),
        !replica.wallets@[i].log.keys().contains(
            crate::transfers::store::decimal(replica.wallets@[i].history@.len() as nat),
        ),
{
    let w = replica.wallets@[i];
    assert(w.wf());
    assert(w.log.history().len() == w.log.count());
    assert(encodings(event_views(w.history@)).len() == w.history@.len());
    lemma_next_key_is_free(w.log);
    let c = choose|c: int|
        0 <= c < replica.wallets@.len() && replica.wallets@[c].owner_key@ == w.owner_key@;
    assert(c == i);
}

/// Recording a proof a second time records nothing: after a first call that
/// succeeded the history of the receiving wallet holds the credit at that
/// step, as its last event where the call recorded it, and a second call
/// with the same proof answers that nothing was recorded and changes no
/// wallet.
pub proof fn lemma_record_is_idempotent(
    first: ReplicaManager,
    second: ReplicaManager,
    third: ReplicaManager,
    p: ProofView,
    propagated: bool,
    r1: Result<bool, Error>,
    r2: Result<bool, Error>,
)
    requires
        first.record_post(&second, p, propagated, r1),
        second.record_post(&third, p, propagated, r2),
        r1 is Ok,
    ensures
        recorded(second.events_of(p.credit.recipient), p.credit.id, propagated),
        r1 == Ok::<bool, Error>(true) ==> second.events_of(p.credit.recipient).last()
            == step_event(p, propagated),
        r2 == Ok::<bool, Error>(false),
        second.same_wallets(&third),
{
    let key = p.credit.recipient;
    assert(second.chain_has(p.debiting_replicas_keys) == first.chain_has(p.debiting_replicas_keys));
    if r1 == Ok::<bool, Error>(true) {
        let h = second.events_of(key);
        assert(h[h.len() - 1] == step_event(p, propagated));
    }
}

/// Replay gives the history back: two histories that are logged as the same
/// bytes are the same history, and fold to the same balance.
pub proof fn lemma_replay_gives_the_history(h1: Seq<EventView>, h2: Seq<EventView>)
    requires
        forall|i: int| 0 <= i < h1.len() ==> valid_event(#[trigger] h1[i]),
        forall|i: int| 0 <= i < h2.len() ==> valid_event(#[trigger] h2[i]),
        encodings(h1) == encodings(h2),
    ensures
        h1 == h2,
        fold(h1) == fold(h2),
{
    assert(encodings(h1).len() == h1.len());
    assert(encodings(h2).len() == h2.len());
    assert forall|i: int| 0 <= i < h1.len() implies h1[i] == h2[i] by {
        assert(encodings(h1)[i] == event_encoding(h1[i]));
        assert(encodings(h2)[i] == event_encoding(h2[i]));
        lemma_event_reads_back(h1[i]);
        lemma_event_reads_back(h2[i]);
    }
    assert(h1 =~= h2);
}

} // verus!
