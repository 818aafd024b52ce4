//! Emptying the queues of simulated nodes and clients.

use crate::mock_crust_detail::test_client::TestClient;
use crate::mock_crust_detail::test_node::{lemma_polled_compose, TestNode};
use vstd::prelude::*;

verus! {

/// The most rounds that polling with resends will ever make. The rounds it
/// makes stay far below.
pub const MAX_POLL_CALLS: usize = 1000;

/// The seconds after which an unacknowledged message is sent again.
pub const ACK_TIMEOUT_SECS: u64 = 20;

/// The seconds after which a node that has not connected is given up.
pub const NODE_CONNECT_TIMEOUT_SECS: u64 = 60;

/// The events that wait in the queues of the nodes.
pub open spec fn pending_nodes(s: Seq<TestNode>) -> nat
    decreases s.len(),
{
    if s.len() == 0 {
        0
    } else {
        pending_nodes(s.drop_last()) + s.last().inbox@.len()
    }
}

/// The events that wait in the queues of the clients.
pub open spec fn pending_clients(s: Seq<TestClient>) -> nat
    decreases s.len(),
{
    if s.len() == 0 {
        0
    } else {
        pending_clients(s.drop_last()) + s.last().inbox@.len()
    }
}

/// Every node of `after` is the node of `before` in its place, some events
/// later: as many as have left its queue.
pub open spec fn nodes_served(before: Seq<TestNode>, after: Seq<TestNode>) -> bool {
    &&& after.len() == before.len()
    &&& forall|i: int|
        0 <= i < before.len() ==> {
            &&& (#[trigger] after[i]).wf()
            &&& after[i].inbox@.len() <= before[i].inbox@.len()
            &&& before[i].polled(&after[i], (before[i].inbox@.len() - after[i].inbox@.len()) as nat)
        }
}

/// Every client of `after` is the client of `before` in its place, with the
/// same envelopes delivered and no more of them waiting.
pub open spec fn clients_served(before: Seq<TestClient>, after: Seq<TestClient>) -> bool {
    &&& after.len() == before.len()
    &&& forall|j: int|
        0 <= j < before.len() ==> {
            &&& (#[trigger] after[j]).name == before[j].name
            &&& after[j].delivered() == before[j].delivered()
            &&& after[j].inbox@.len() <= before[j].inbox@.len()
        }
}

/// No event waits anywhere.
pub open spec fn drained(nodes: Seq<TestNode>, clients: Seq<TestClient>) -> bool {
    &&& forall|i: int| 0 <= i < nodes.len() ==> (#[trigger] nodes[i]).inbox@.len() == 0
    &&& forall|j: int| 0 <= j < clients.len() ==> (#[trigger] clients[j]).inbox@.len() == 0
}

/// What the polling loops need to start: well formed nodes, and a count of
/// waiting events that a `usize` can hold.
pub open spec fn pollable(nodes: Seq<TestNode>, clients: Seq<TestClient>) -> bool {
    &&& forall|i: int| 0 <= i < nodes.len() ==> (#[trigger] nodes[i]).wf()
    &&& pending_nodes(nodes) + pending_clients(clients) <= usize::MAX
}

/// What every polling loop achieves: the count of the events that waited,
/// every one of them served by the node or client it waited at, and none
/// left.
pub open spec fn emptied(
    nodes: Seq<TestNode>,
    clients: Seq<TestClient>,
    nodes_after: Seq<TestNode>,
    clients_after: Seq<TestClient>,
    count: usize,
) -> bool {
    &&& count == pending_nodes(nodes) + pending_clients(clients)
    &&& nodes_served(nodes, nodes_after)
    &&& clients_served(clients, clients_after)
    &&& drained(nodes_after, clients_after)
}

proof fn lemma_pending_nodes_update(s: Seq<TestNode>, i: int, x: TestNode)
    requires
        0 <= i < s.len(),
    ensures
        pending_nodes(s.update(i, x)) + s[i].inbox@.len() == pending_nodes(s) + x.inbox@.len(),
    decreases s.len(),
{
    if i == s.len() - 1 {
        assert(s.update(i, x).drop_last() =~= s.drop_last());
    } else {
        lemma_pending_nodes_update(s.drop_last(), i, x);
        assert(s.update(i, x).drop_last() =~= s.drop_last().update(i, x));
    }
}

proof fn lemma_pending_clients_update(s: Seq<TestClient>, i: int, x: TestClient)
    requires
        0 <= i < s.len(),
    ensures
        pending_clients(s.update(i, x)) + s[i].inbox@.len() == pending_clients(s)
            + x.inbox@.len(),
    decreases s.len(),
{
    if i == s.len() - 1 {
        assert(s.update(i, x).drop_last() =~= s.drop_last());
    } else {
        lemma_pending_clients_update(s.drop_last(), i, x);
        assert(s.update(i, x).drop_last() =~= s.drop_last().update(i, x));
    }
}

proof fn lemma_drained_is_zero(nodes: Seq<TestNode>, clients: Seq<TestClient>)
    requires
        drained(nodes, clients),
    ensures
        pending_nodes(nodes) == 0,
        pending_clients(clients) == 0,
    decreases nodes.len() + clients.len(),
{
    if nodes.len() > 0 {
        assert(nodes.last().inbox@.len() == 0);
        assert(drained(nodes.drop_last(), clients)) by {
            assert forall|i: int| 0 <= i < nodes.drop_last().len() implies (
            #[trigger] nodes.drop_last()[i]).inbox@.len() == 0 by {
                assert(nodes[i].inbox@.len() == 0);
            }
        }
        lemma_drained_is_zero(nodes.drop_last(), clients);
    } else if clients.len() > 0 {
        assert(clients.last().inbox@.len() == 0);
        assert(drained(nodes, clients.drop_last())) by {
            assert forall|j: int| 0 <= j < clients.drop_last().len() implies (
            #[trigger] clients.drop_last()[j]).inbox@.len() == 0 by {
                assert(clients[j].inbox@.len() == 0);
            }
        }
        lemma_drained_is_zero(nodes, clients.drop_last());
    }
}

proof fn lemma_nodes_served_refl(nodes: Seq<TestNode>)
    requires
        forall|i: int| 0 <= i < nodes.len() ==> (#[trigger] nodes[i]).wf(),
    ensures
        nodes_served(nodes, nodes),
{
}

/// `core::slice::from_mut` of std: the slice of length one over the value
/// behind the reference. Believed: that the slice holds that value, and that
/// what is written through the slice is written to the value.
pub assume_specification<T>[ core::slice::from_mut::<T> ](s: &mut T) -> (r: &mut [T])
    ensures
        r@ == seq![*old(s)],
        final(r)@ == seq![*final(s)],
;

/// Serves every event that waits at a node and tells how many there were.
pub fn nodes(section: &mut [TestNode]) -> (count: usize)
    requires
        pollable(old(section)@, Seq::empty()),
    ensures
        emptied(old(section)@, Seq::empty(), final(section)@, Seq::empty(), count),
{
    let mut none: Vec<TestClient> = Vec::new();
    let count = nodes_and_clients(section, none.as_mut_slice());
    proof {
        assert(none@ =~= Seq::empty());
    }
    count
}

/// Serves every event that waits at a node or at the client and tells how
/// many there were.
pub fn nodes_and_client(nodes: &mut [TestNode], client: &mut TestClient) -> (count: usize)
    requires
        pollable(old(nodes)@, seq![*old(client)]),
    ensures
        emptied(old(nodes)@, seq![*old(client)], final(nodes)@, seq![*final(client)], count),
{
    nodes_and_clients(nodes, core::slice::from_mut(client))
}

/// Serves every event that waits at a node or at a client and tells how many
/// there were. It goes round until a round serves nothing.
pub fn nodes_and_clients(nodes: &mut [TestNode], clients: &mut [TestClient]) -> (count: usize)
    requires
        pollable(old(nodes)@, old(clients)@),
    ensures
        emptied(old(nodes)@, old(clients)@, final(nodes)@, final(clients)@, count),
{
    let mut count: usize = 0;
    proof {
        lemma_nodes_served_refl(nodes@);
    }
    loop
        invariant
            pollable(old(nodes)@, old(clients)@),
            nodes_served(old(nodes)@, nodes@),
            clients_served(old(clients)@, clients@),
            count + pending_nodes(nodes@) + pending_clients(clients@) == pending_nodes(
                old(nodes)@,
            ) + pending_clients(old(clients)@),
        ensures
            drained(nodes@, clients@),
        decreases pending_nodes(nodes@) + pending_clients(clients@),
    {
        let prev_count = count;
        let mut i: usize = 0;
        while i < nodes.len()
            invariant
                i <= nodes@.len(),
                pollable(old(nodes)@, old(clients)@),
                nodes_served(old(nodes)@, nodes@),
                count + pending_nodes(nodes@) + pending_clients(clients@) == pending_nodes(
                    old(nodes)@,
                ) + pending_clients(old(clients)@),
                forall|j: int| 0 <= j < i ==> (#[trigger] nodes@[j]).inbox@.len() == 0,
            decreases nodes@.len() - i,
        {
            let ghost before = nodes@;
            let n = nodes[i].poll();
            proof {
                assert(nodes@ =~= before.update(i as int, nodes@[i as int]));
                lemma_pending_nodes_update(before, i as int, nodes@[i as int]);
                lemma_polled_compose(
                    old(nodes)@[i as int],
                    before[i as int],
                    nodes@[i as int],
                    (old(nodes)@[i as int].inbox@.len() - before[i as int].inbox@.len()) as nat,
                    n as nat,
                );
                assert forall|j: int| 0 <= j < before.len() implies {
                    &&& (#[trigger] nodes@[j]).wf()
                    &&& nodes@[j].inbox@.len() <= old(nodes)@[j].inbox@.len()
                    &&& old(nodes)@[j].polled(
                        &nodes@[j],
                        (old(nodes)@[j].inbox@.len() - nodes@[j].inbox@.len()) as nat,
                    )
                } by {
                    if j != i {
                        assert(nodes@[j] == before[j]);
                    }
                }
            }
            count += n;
            i += 1;
        }
        let mut j: usize = 0;
        while j < clients.len()
            invariant
                j <= clients@.len(),
                pollable(old(nodes)@, old(clients)@),
                clients_served(old(clients)@, clients@),
                count + pending_nodes(nodes@) + pending_clients(clients@) == pending_nodes(
                    old(nodes)@,
                ) + pending_clients(old(clients)@),
                forall|k: int| 0 <= k < j ==> (#[trigger] clients@[k]).inbox@.len() == 0,
            decreases clients@.len() - j,
        {
            let ghost before = clients@;
            let n = clients[j].poll();
            proof {
                assert(clients@ =~= before.update(j as int, clients@[j as int]));
                lemma_pending_clients_update(before, j as int, clients@[j as int]);
                assert forall|k: int| 0 <= k < before.len() implies {
                    &&& (#[trigger] clients@[k]).name == old(clients)@[k].name
                    &&& clients@[k].delivered() == old(clients)@[k].delivered()
                    &&& clients@[k].inbox@.len() <= old(clients)@[k].inbox@.len()
                } by {
                    if k != j {
                        assert(clients@[k] == before[k]);
                    }
                }
            }
            count += n;
            j += 1;
        }
        proof {
            lemma_drained_is_zero(nodes@, clients@);
        }
        if prev_count == count {
            break ;
        }
    }
    proof {
        lemma_drained_is_zero(nodes@, clients@);
    }
    count
}

/// Calls `fake_clock::FakeClock::time`: the fake time of this thread, in
/// milliseconds. Nothing is claimed of it.
#[verifier::external_body]
fn clock_time() -> (now: u64) {
    fake_clock::FakeClock::time()
}

/// Calls `fake_clock::FakeClock::set_time`: sets the fake time of this
/// thread. Nothing is claimed of it.
#[verifier::external_body]
fn set_clock_time(time: u64) {
    fake_clock::FakeClock::set_time(time)
}

/// Moves the fake clock on by `millis`, stopping at the largest time there
/// is.
fn advance_clock(millis: u64) {
    let now = clock_time();
    let next = if now <= u64::MAX - millis {
        now + millis
    } else {
        u64::MAX
    };
    set_clock_time(next);
}

/// As `nodes_and_clients_with_resend`, for one client.
pub fn nodes_and_client_with_resend(nodes: &mut [TestNode], client: &mut TestClient) -> (count:
    usize)
    requires
        pollable(old(nodes)@, seq![*old(client)]),
    ensures
        emptied(old(nodes)@, seq![*old(client)], final(nodes)@, seq![*final(client)], count),
{
    nodes_and_clients_with_resend(nodes, core::slice::from_mut(client))
}

/// Serves every event that waits at a node or at a client, and goes on
/// polling while it moves the fake clock past the time after which messages
/// are sent again, until a node that has not connected would be given up
/// with nothing more to serve. It tells how many events it served. It comes
/// back within four rounds.
pub fn nodes_and_clients_with_resend(nodes: &mut [TestNode], clients: &mut [TestClient]) -> (count:
    usize)
    requires
        pollable(old(nodes)@, old(clients)@),
    ensures
        emptied(old(nodes)@, old(clients)@, final(nodes)@, final(clients)@, count),
{
    let clock_advance_duration_ms: u64 = ACK_TIMEOUT_SECS * 1000 + 1;
    let mut clock_advanced_by_ms: u64 = 0;
    let mut count: usize = 0;
    let mut calls: usize = 0;
    proof {
        lemma_nodes_served_refl(nodes@);
    }
    while calls < MAX_POLL_CALLS
        invariant
            clock_advance_duration_ms == 20001,
            calls <= 3,
            clock_advanced_by_ms == calls * 20001,
            pollable(old(nodes)@, old(clients)@),
            nodes_served(old(nodes)@, nodes@),
            clients_served(old(clients)@, clients@),
            count + pending_nodes(nodes@) + pending_clients(clients@) == pending_nodes(
                old(nodes)@,
            ) + pending_clients(old(clients)@),
            calls > 0 ==> drained(nodes@, clients@),
        decreases MAX_POLL_CALLS - calls,
    {
        let prev_count = count;
        let ghost before_nodes = nodes@;
        let ghost before_clients = clients@;
        let served = nodes_and_clients(nodes, clients);
        proof {
            lemma_drained_is_zero(nodes@, clients@);
            if calls > 0 {
                lemma_drained_is_zero(before_nodes, before_clients);
            }
            assert forall|i: int| 0 <= i < nodes@.len() implies {
                &&& (#[trigger] nodes@[i]).wf()
                &&& nodes@[i].inbox@.len() <= old(nodes)@[i].inbox@.len()
                &&& old(nodes)@[i].polled(
                    &nodes@[i],
                    (old(nodes)@[i].inbox@.len() - nodes@[i].inbox@.len()) as nat,
                )
            } by {
                assert(before_nodes[i].wf());
                lemma_polled_compose(
                    old(nodes)@[i],
                    before_nodes[i],
                    nodes@[i],
                    (old(nodes)@[i].inbox@.len() - before_nodes[i].inbox@.len()) as nat,
                    (before_nodes[i].inbox@.len() - nodes@[i].inbox@.len()) as nat,
                );
            }
            assert forall|j: int| 0 <= j < clients@.len() implies {
                &&& (#[trigger] clients@[j]).name == old(clients)@[j].name
                &&& clients@[j].delivered() == old(clients)@[j].delivered()
                &&& clients@[j].inbox@.len() <= old(clients)@[j].inbox@.len()
            } by {
                assert(before_clients[j].name == old(clients)@[j].name);
            }
        }
        count += served;
        if count > prev_count {
            clock_advanced_by_ms = 0;
        } else if clock_advanced_by_ms > NODE_CONNECT_TIMEOUT_SECS * 1000 {
            return count;
        }
        advance_clock(clock_advance_duration_ms);
        clock_advanced_by_ms += clock_advance_duration_ms;
        calls += 1;
    }
    count
}

/// Serves every event that waits at a node or at a client, one event of
/// each node and client per round, and tells how many there were.
pub fn nodes_and_clients_parallel(nodes: &mut [TestNode], clients: &mut [TestClient]) -> (count:
    usize)
    requires
        pollable(old(nodes)@, old(clients)@),
    ensures
        emptied(old(nodes)@, old(clients)@, final(nodes)@, final(clients)@, count),
{
    let mut count: usize = 0;
    proof {
        lemma_nodes_served_refl(nodes@);
    }
    loop
        invariant
            pollable(old(nodes)@, old(clients)@),
            nodes_served(old(nodes)@, nodes@),
            clients_served(old(clients)@, clients@),
            count + pending_nodes(nodes@) + pending_clients(clients@) == pending_nodes(
                old(nodes)@,
            ) + pending_clients(old(clients)@),
        ensures
            drained(nodes@, clients@),
        decreases pending_nodes(nodes@) + pending_clients(clients@),
    {
        let prev_count = count;
        let ghost round_start = pending_nodes(nodes@) + pending_clients(clients@);
        let mut i: usize = 0;
        while i < nodes.len()
            invariant
                i <= nodes@.len(),
                prev_count <= count,
                pollable(old(nodes)@, old(clients)@),
                nodes_served(old(nodes)@, nodes@),
                count + pending_nodes(nodes@) + pending_clients(clients@) == pending_nodes(
                    old(nodes)@,
                ) + pending_clients(old(clients)@),
                count == prev_count ==> forall|j: int|
                    0 <= j < i ==> (#[trigger] nodes@[j]).inbox@.len() == 0,
            decreases nodes@.len() - i,
        {
            let ghost before = nodes@;
            let served = nodes[i].poll_once();
            proof {
                assert(nodes@ =~= before.update(i as int, nodes@[i as int]));
                lemma_pending_nodes_update(before, i as int, nodes@[i as int]);
                if served {
                    assert(before[i as int].polled(&before[i as int], 0));
                    assert(before[i as int].polled(&nodes@[i as int], 1));
                    lemma_polled_compose(
                        old(nodes)@[i as int],
                        before[i as int],
                        nodes@[i as int],
                        (old(nodes)@[i as int].inbox@.len() - before[i as int].inbox@.len()) as nat,
                        1,
                    );
                }
                assert forall|j: int| 0 <= j < before.len() implies {
                    &&& (#[trigger] nodes@[j]).wf()
                    &&& nodes@[j].inbox@.len() <= old(nodes)@[j].inbox@.len()
                    &&& old(nodes)@[j].polled(
                        &nodes@[j],
                        (old(nodes)@[j].inbox@.len() - nodes@[j].inbox@.len()) as nat,
                    )
                } by {
                    if j != i {
                        assert(nodes@[j] == before[j]);
                    }
                }
                if !served {
                    assert forall|j: int| 0 <= j < i + 1 implies (#[trigger] nodes@[j]).inbox@.len()
                        == 0 || count != prev_count by {
                        if j < i {
                            assert(nodes@[j] == before[j]);
                        }
                    }
                }
            }
            if served {
                count += 1;
            }
            i += 1;
        }
        let mut j: usize = 0;
        while j < clients.len()
            invariant
                j <= clients@.len(),
                prev_count <= count,
                pollable(old(nodes)@, old(clients)@),
                clients_served(old(clients)@, clients@),
                count + pending_nodes(nodes@) + pending_clients(clients@) == pending_nodes(
                    old(nodes)@,
                ) + pending_clients(old(clients)@),
                count == prev_count ==> forall|k: int|
                    0 <= k < j ==> (#[trigger] clients@[k]).inbox@.len() == 0,
                count == prev_count ==> forall|k: int|
                    0 <= k < nodes@.len() ==> (#[trigger] nodes@[k]).inbox@.len() == 0,
            decreases clients@.len() - j,
        {
            let ghost before = clients@;
            let served = clients[j].poll_once();
            proof {
                assert(clients@ =~= before.update(j as int, clients@[j as int]));
                lemma_pending_clients_update(before, j as int, clients@[j as int]);
                assert forall|k: int| 0 <= k < before.len() implies {
                    &&& (#[trigger] clients@[k]).name == old(clients)@[k].name
                    &&& clients@[k].delivered() == old(clients)@[k].delivered()
                    &&& clients@[k].inbox@.len() <= old(clients)@[k].inbox@.len()
                } by {
                    if k != j {
                        assert(clients@[k] == before[k]);
                    }
                }
                if !served {
                    assert forall|k: int| 0 <= k < j + 1 implies (
                    #[trigger] clients@[k]).inbox@.len() == 0 || count != prev_count by {
                        if k < j {
                            assert(clients@[k] == before[k]);
                        }
                    }
                }
            }
            if served {
                count += 1;
            }
            j += 1;
        }
        if prev_count == count {
            break ;
        }
    }
    proof {
        lemma_drained_is_zero(nodes@, clients@);
    }
    count
}

} // verus!
