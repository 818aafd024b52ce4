//! A client of a simulated section: a queue of envelopes that were delivered
//! to it and the list of those it has taken in.

use crate::messages::Rpc;
use crate::name::XorName;
use vstd::prelude::*;

verus! {

/// One simulated client.
pub struct TestClient {
    pub name: XorName,
    pub inbox: Vec<Rpc>,
    pub received: Vec<Rpc>,
}

impl TestClient {
    /// Everything that was delivered so far, taken in or not, in order.
    pub open spec fn delivered(&self) -> Seq<Rpc> {
        self.received@ + self.inbox@
    }

    /// A client named `name` to which nothing was delivered.
    pub fn new(name: XorName) -> (c: TestClient)
        ensures
            c.name == name,
            c.inbox@.len() == 0,
            c.received@.len() == 0,
    {
        TestClient { name, inbox: Vec::new(), received: Vec::new() }
    }

    /// Puts an envelope at the end of the queue.
    pub fn deliver(&mut self, rpc: Rpc)
        ensures
            final(self).name == old(self).name,
            final(self).received == old(self).received,
            final(self).inbox@ == old(self).inbox@.push(rpc),
    {
        self.inbox.push(rpc);
    }

    /// Takes in the first envelope of the queue, where there is one, and
    /// tells whether there was.
    pub fn poll_once(&mut self) -> (r: bool)
        ensures
            r == (old(self).inbox@.len() > 0),
            final(self).name == old(self).name,
            final(self).delivered() == old(self).delivered(),
            r ==> final(self).inbox@.len() + 1 == old(self).inbox@.len(),
            !r ==> *final(self) == *old(self),
    {
        if self.inbox.len() == 0 {
            return false;
        }
        let rpc = self.inbox.remove(0);
        self.received.push(rpc);
        proof {
            assert(self.delivered() =~= old(self).delivered());
        }
        true
    }

    /// Takes in every envelope of the queue and tells how many there were.
    pub fn poll(&mut self) -> (r: usize)
        ensures
            r == old(self).inbox@.len(),
            final(self).name == old(self).name,
            final(self).inbox@.len() == 0,
            final(self).delivered() == old(self).delivered(),
    {
        let mut result: usize = 0;
        let total = self.inbox.len();
        loop
            invariant
                total == old(self).inbox@.len(),
                result + self.inbox@.len() == old(self).inbox@.len(),
                self.name == old(self).name,
                self.delivered() == old(self).delivered(),
            ensures
                self.inbox@.len() == 0,
            decreases self.inbox@.len(),
        {
            let more = self.poll_once();
            if !more {
                break ;
            }
            result += 1;
        }
        result
    }
}

} // verus!
