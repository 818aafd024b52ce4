//! A node of a simulated section: the data handler under test between a
//! queue of envelopes that were delivered to it and a list of the actions
//! that it has asked for.

use crate::data_handler::DataHandler;
use crate::messages::{Action, ChunkAddress, Rpc, SrcLocation};
use crate::name::XorName;
use vstd::prelude::*;

verus! {

/// One simulated node.
pub struct TestNode {
    pub vault: DataHandler,
    pub inbox: Vec<(SrcLocation, Rpc)>,
    pub outbox: Vec<Action>,
    pub group_size: usize,
}

impl TestNode {
    /// The data handler is well formed.
    pub open spec fn wf(&self) -> bool {
        self.vault.wf()
    }

    /// `after` is this node one event later: the first envelope of the queue
    /// was served, and what the handler asked for was put on the list.
    pub open spec fn stepped(&self, after: &TestNode) -> bool {
        &&& self.inbox@.len() > 0
        &&& after.inbox@ == self.inbox@.drop_first()
        &&& after.group_size == self.group_size
        &&& after.wf()
        &&& exists|r: Option<Action>| #[trigger]
            self.vault.handle_vault_rpc_post(&after.vault, self.inbox@[0].0, self.inbox@[0].1, r)
                && after.outbox@ == match r {
                Some(a) => self.outbox@.push(a),
                None => self.outbox@,
            }
    }

    /// `after` is this node `n` events later.
    pub open spec fn polled(&self, after: &TestNode, n: nat) -> bool
        decreases n,
    {
        if n == 0 {
            *after == *self
        } else {
            exists|mid: TestNode|
                self.polled(&mid, (n - 1) as nat) && #[trigger] mid.stepped(after)
        }
    }

    /// A node named `name` with an empty store of the given quota and empty
    /// queues: an elder knows the given adults. `group_size` is the size of
    /// the close group that the node sees around it.
    pub fn new(
        name: XorName,
        max_capacity: u64,
        is_elder: bool,
        adults: Vec<XorName>,
        group_size: usize,
    ) -> (n: TestNode)
        ensures
            n.wf(),
            n.vault.id == name,
            n.vault.is_elder() == is_elder,
            n.inbox@.len() == 0,
            n.outbox@.len() == 0,
            n.group_size == group_size,
            n.vault.idata_holder.chunks.capacity() == max_capacity,
            n.vault.idata_holder.chunks.used_space() == 0,
            forall|a: ChunkAddress| !n.vault.idata_holder.chunks.has(a),
            n.vault.idata_duplicate_op@.len() == 0,
            n.vault.idata_handler matches Some(h) ==> h.adults@ == adults@ && h.ops@.len() == 0
                && h.duplications@.len() == 0 && forall|a: ChunkAddress, x: XorName|
                !h.index.holds(a, x),
    {
        TestNode {
            vault: DataHandler::new(name, max_capacity, is_elder, adults),
            inbox: Vec::new(),
            outbox: Vec::new(),
            group_size,
        }
    }

    /// The name of the node.
    pub fn name(&self) -> (r: XorName)
        ensures
            r == self.vault.id,
    {
        self.vault.id
    }

    /// The size of the close group that the node sees around a name.
    pub fn close_group_len(&self, name: &XorName) -> (r: usize)
        ensures
            r == self.group_size,
    {
        self.group_size
    }

    /// Tells whether the node keeps the chunk at `address`.
    pub fn stores(&self, address: &ChunkAddress) -> (r: bool)
        requires
            self.wf(),
        ensures
            r == self.vault.idata_holder.chunks.has(*address),
    {
        self.vault.idata_holder.chunks.get(address).is_ok()
    }

    /// Puts an envelope at the end of the queue.
    pub fn deliver(&mut self, src: SrcLocation, rpc: Rpc)
        ensures
            final(self).vault == old(self).vault,
            final(self).outbox == old(self).outbox,
            final(self).group_size == old(self).group_size,
            final(self).inbox@ == old(self).inbox@.push((src, rpc)),
    {
        self.inbox.push((src, rpc));
    }

    /// Hands out the actions asked for so far and clears the list.
    pub fn take_actions(&mut self) -> (r: Vec<Action>)
        ensures
            r@ == old(self).outbox@,
            final(self).outbox@.len() == 0,
            final(self).vault == old(self).vault,
            final(self).inbox == old(self).inbox,
            final(self).group_size == old(self).group_size,
    {
        let mut out: Vec<Action> = Vec::new();
        out.append(&mut self.outbox);
        proof {
            assert(out@ =~= old(self).outbox@);
        }
        out
    }

    /// Serves the first envelope of the queue, where there is one, and tells
    /// whether there was.
    pub fn poll_once(&mut self) -> (r: bool)
        requires
            old(self).wf(),
        ensures
            final(self).wf(),
            r == (old(self).inbox@.len() > 0),
            r ==> old(self).stepped(final(self)),
            !r ==> *final(self) == *old(self),
    {
        if self.inbox.len() == 0 {
            return false;
        }
        let (src, rpc) = self.inbox.remove(0);
        proof {
            assert(self.inbox@ =~= old(self).inbox@.drop_first());
        }
        let ghost before = self.vault;
        let action = self.vault.handle_vault_rpc(src, rpc);
        let ghost witness = action;
        match action {
            Some(a) => self.outbox.push(a),
            None => {},
        }
        proof {
            assert(old(self).vault.handle_vault_rpc_post(
                &self.vault,
                old(self).inbox@[0].0,
                old(self).inbox@[0].1,
                witness,
            ));
        }
        true
    }

    /// Serves every envelope of the queue and tells how many there were.
    pub fn poll(&mut self) -> (r: usize)
        requires
            old(self).wf(),
        ensures
            final(self).wf(),
            r == old(self).inbox@.len(),
            final(self).inbox@.len() == 0,
            old(self).polled(final(self), r as nat),
    {
        let mut result: usize = 0;
        let total = self.inbox.len();
        loop
            invariant
                self.wf(),
                total == old(self).inbox@.len(),
                result + self.inbox@.len() == old(self).inbox@.len(),
                old(self).polled(self, result as nat),
            ensures
                self.inbox@.len() == 0,
            decreases self.inbox@.len(),
        {
            let ghost prev = *self;
            let more = self.poll_once();
            if !more {
                break ;
            }
            proof {
                assert(old(self).polled(&prev, result as nat) && prev.stepped(self));
            }
            result += 1;
        }
        result
    }
}

/// Polling composes: `n` events after `m` events are `m + n` events.
pub proof fn lemma_polled_compose(a: TestNode, b: TestNode, c: TestNode, m: nat, n: nat)
    requires
        a.polled(&b, m),
        b.polled(&c, n),
    ensures
        a.polled(&c, m + n),
    decreases n,
{
    if n > 0 {
        let mid = choose|mid: TestNode|
            b.polled(&mid, (n - 1) as nat) && #[trigger] mid.stepped(&c);
        lemma_polled_compose(a, b, mid, m, (n - 1) as nat);
        assert(a.polled(&mid, (m + n - 1) as nat) && mid.stepped(&c));
    }
}

} // verus!
