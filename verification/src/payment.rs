//! Payment for writes. An elder clears the payment that comes with a write
//! at the replica of its section, and only then passes the write on to the
//! section that is closest to the data. Too small a payment is kept: that
//! is the price of trying.

use crate::codec::{encode_write, write_encoding};
use crate::messages::{ChunkWrite, Error, PublicKey};
use crate::msg_wrapping::{
    forwards, refuses, Cmd, CmdError, ElderDuties, ElderMsgWrapping, Message, MsgEnvelope,
    NodeOperation, TransferError,
};
use crate::transfers::events::ProofView;
use crate::transfers::replica_manager::ReplicaManager;
use vstd::prelude::*;

verus! {

/// What the payment duty is asked to do.
#[derive(Debug)]
pub enum PaymentDuty {
    ProcessPayment(MsgEnvelope),
}

/// What the payment of a write comes to once the replica has answered:
/// `registered` is its answer to the registration, and `propagated` its
/// answer to the propagation, which is asked for only after a registration
/// that succeeded. A failure of either is told to the origin. A payment
/// that cleared is held against the cost of storing the write: where the
/// payment is below the cost, or the cost is more than any amount can be,
/// the origin is told `InsufficientBalance`, and else the write is passed
/// on.
pub open spec fn cleared(
    msg: MsgEnvelope,
    amount: u64,
    cmd: ChunkWrite,
    registered: Result<bool, Error>,
    propagated: Result<bool, Error>,
    cost: Option<u64>,
    r: Option<NodeOperation>,
) -> bool {
    match registered {
        Err(e) => refuses(r, msg, e),
        Ok(_) => match propagated {
            Err(e) => refuses(r, msg, e),
            Ok(_) => match cost {
                None => refuses(r, msg, Error::InsufficientBalance),
                Some(total) => if total > amount {
                    refuses(r, msg, Error::InsufficientBalance)
                } else {
                    forwards(r, msg, cmd)
                },
            },
        },
    }
}

/// What the replica did with a payment: it was asked to register it, with
/// the answer `registered`, and, where that succeeded, to take it as
/// propagated, with the answer `propagated`. `mid` is the replica between
/// the two.
pub open spec fn paid(
    replica: &ReplicaManager,
    mid: &ReplicaManager,
    after: &ReplicaManager,
    payment: ProofView,
    registered: Result<bool, Error>,
    propagated: Result<bool, Error>,
) -> bool {
    &&& replica.record_post(mid, payment, false, registered)
    &&& match registered {
        Ok(_) => mid.record_post(after, payment, true, propagated),
        Err(e) => propagated == Err::<bool, Error>(e) && mid.same_section(after)
            && mid.same_wallets(after),
    }
}

/// The cost of storing a write at the price of the replica, where a `u64`
/// can hold it.
pub open spec fn cost_of(replica: &ReplicaManager, cmd: ChunkWrite) -> Option<u64> {
    if replica.byte_price * (write_encoding(cmd).len() as u64) <= u64::MAX {
        Some((replica.byte_price * (write_encoding(cmd).len() as u64)) as u64)
    } else {
        None
    }
}

/// An elder in its payment duty.
pub struct Payments {
    wrapping: ElderMsgWrapping,
}

impl Payments {
    /// What is sent goes out under the payment duty.
    #[verifier::type_invariant]
    spec fn wrapped_as_payment(&self) -> bool {
        self.wrapping.duty() == ElderDuties::Payment
    }

    /// The duty that everything that this part sends goes out under.
    pub closed spec fn duty(&self) -> ElderDuties {
        self.wrapping.duty()
    }

    /// The payment duty: what it sends is wrapped as sent under
    /// `ElderDuties::Payment`.
    pub fn new() -> (p: Payments)
        ensures
            p.duty() == ElderDuties::Payment,
    {
        Payments { wrapping: ElderMsgWrapping::new(ElderDuties::Payment) }
    }

    /// What `process_payment_duty` does: it processes the payment.
    pub open spec fn process_payment_duty_post(
        replica: &ReplicaManager,
        after: &ReplicaManager,
        duty: PaymentDuty,
        r: Option<NodeOperation>,
    ) -> bool {
        match duty {
            PaymentDuty::ProcessPayment(msg) => Self::process_payment_post(replica, after, msg, r),
        }
    }

    /// Carries out a payment duty at the replica of the section.
    pub fn process_payment_duty(
        &mut self,
        replica: &mut ReplicaManager,
        duty: &PaymentDuty,
    ) -> (r: Option<NodeOperation>)
        requires
            old(replica).wf(),
        ensures
            final(replica).wf(),
            Self::process_payment_duty_post(old(replica), final(replica), *duty, r),
    {
        match duty {
            PaymentDuty::ProcessPayment(msg) => self.process_payment(replica, msg),
        }
    }

    /// What processing a payment does. A message that is no paid write is
    /// dropped. A payment to a wallet other than that of this section, or
    /// made while no section key is known, is refused with
    /// `NoSuchRecipient` before the replica is asked anything, so that no
    /// event is recorded. Else the replica registers the payment and then
    /// takes it as propagated, and what comes of it is what `cleared` says:
    /// too small a payment stays recorded.
    pub open spec fn process_payment_post(
        replica: &ReplicaManager,
        after: &ReplicaManager,
        msg: MsgEnvelope,
        r: Option<NodeOperation>,
    ) -> bool {
        match msg.message {
            Message::Cmd { cmd: Cmd::Data { payment, cmd }, .. } => {
                if !(replica.section_key matches Some(k) && k@ == payment@.credit.recipient) {
                    &&& refuses(r, msg, Error::NoSuchRecipient)
                    &&& replica.same_section(after)
                    &&& replica.same_wallets(after)
                } else {
                    exists|
                        mid: ReplicaManager,
                        registered: Result<bool, Error>,
                        propagated: Result<bool, Error>,
                    |
                        {
                            &&& #[trigger] paid(
                                replica,
                                &mid,
                                after,
                                payment@,
                                registered,
                                propagated,
                            )
                            &&& cleared(
                                msg,
                                payment@.credit.amount,
                                cmd,
                                registered,
                                propagated,
                                cost_of(replica, cmd),
                                r,
                            )
                        }
                }
            },
            _ => r is None && replica.same_section(after) && replica.same_wallets(after),
        }
    }

    fn refuse(&self, msg: &MsgEnvelope, e: Error) -> (r: Option<NodeOperation>)
        ensures
            refuses(r, *msg, e),
    {
        proof {
            use_type_invariant(self);
        }
        self.wrapping.error(
            CmdError::Transfer(TransferError::TransferRegistration(e)),
            msg.id(),
            &msg.origin,
        )
    }

    /// Decides what to send once the replica has answered.
    pub fn settle(
        &self,
        msg: &MsgEnvelope,
        amount: u64,
        cmd: &ChunkWrite,
        registered: Result<bool, Error>,
        propagated: Result<bool, Error>,
        cost: Option<u64>,
    ) -> (r: Option<NodeOperation>)
        ensures
            cleared(*msg, amount, *cmd, registered, propagated, cost, r),
    {
        match registered {
            Err(e) => self.refuse(msg, e),
            Ok(_) => match propagated {
                Err(e) => self.refuse(msg, e),
                Ok(_) => {
                    let covered = match cost {
                        Some(total_cost) => total_cost <= amount,
                        None => false,
                    };
                    if !covered {
                        return self.refuse(msg, Error::InsufficientBalance);
                    }
                    proof {
                        use_type_invariant(self);
                    }
                    self.wrapping.forward(msg, cmd)
                },
            },
        }
    }

    /// Tells whether the payment is made out to the wallet of this section.
    pub fn section_wallet_id(replica: &ReplicaManager) -> (r: Result<PublicKey, Error>)
        ensures
            r matches Ok(k) ==> replica.section_key == Some(k),
            r matches Err(e) ==> replica.section_key is None && e == Error::NoSuchKey,
    {
        match replica.replicas_pk_set() {
            Some(key) => Ok(key),
            None => Err(Error::NoSuchKey),
        }
    }

    /// Clears the payment of a write and passes the write on.
    pub fn process_payment(&mut self, replica: &mut ReplicaManager, msg: &MsgEnvelope) -> (r:
        Option<NodeOperation>)
        requires
            old(replica).wf(),
        ensures
            final(replica).wf(),
            Self::process_payment_post(old(replica), final(replica), *msg, r),
    {
        let (payment, cmd) = match &msg.message {
            Message::Cmd { cmd: Cmd::Data { payment, cmd }, .. } => (payment, cmd),
            _ => {
                return None;
            },
        };
        let num_bytes = encode_write(cmd).len() as u64;
        let recipient_is_not_section = match Self::section_wallet_id(replica) {
            Ok(section) => !payment.to().same_key(&section),
            _ => true,
        };
        if recipient_is_not_section {
            return self.refuse(msg, Error::NoSuchRecipient);
        }
        let ghost start = *replica;
        let registered = replica.register(payment);
        let ghost mid = *replica;
        let propagated = match registered {
            Ok(_) => replica.receive_propagated(payment),
            Err(e) => Err(e),
        };
        let cost = replica.get_store_cost(num_bytes);
        let r = self.settle(msg, payment.amount(), cmd, registered, propagated, cost);
        proof {
            assert(paid(&start, &mid, replica, payment@, registered, propagated));
            assert(replica.byte_price == start.byte_price);
        }
        r
    }
}

} // verus!
