use fake_clock::FakeClock;
use vault_core::chunk_store::chunk_address;
use vault_core::messages::{
    Action, Chunk, ChunkAddress, ChunkKind, IDataRequest, MessageId, PublicId, Request, Response,
    Rpc, SrcLocation,
};
use vault_core::mock_crust_detail::poll;
use vault_core::mock_crust_detail::test_client::TestClient;
use vault_core::mock_crust_detail::test_node::TestNode;
use vault_core::mock_crust_detail::{
    check_chunk, check_data, check_deleted_data, LINGERING_COPIES_LIMIT, MIN_GROUP_SIZE,
};
use vault_core::name::{closest_k, XorName};

fn name(n: u128) -> XorName {
    XorName { hi: 0, lo: n }
}

fn mid(n: u128) -> MessageId {
    MessageId(name(n))
}

fn public_chunk(bytes: Vec<u8>) -> Chunk {
    let address = chunk_address(ChunkKind::Public, &None, &bytes);
    Chunk { address, owner: None, bytes }
}

fn put(chunk: &Chunk, id: u128) -> Rpc {
    Rpc::Request {
        request: Request::IData(IDataRequest::Put(chunk.duplicate())),
        requester: PublicId::Client(name(9)),
        message_id: mid(id),
    }
}

fn section(n: u128) -> Vec<TestNode> {
    (1..=n).map(|i| TestNode::new(name(i * 16), 1000, false, Vec::new(), 4)).collect()
}

fn answer(id: u128) -> Rpc {
    Rpc::Response {
        response: Response::Mutation(Ok(())),
        requester: PublicId::Client(name(9)),
        message_id: mid(id),
        request_proof: None,
    }
}

#[test]
fn a_node_serves_its_queue_in_order() {
    let mut node = TestNode::new(name(16), 1000, false, Vec::new(), 4);
    assert_eq!(node.name(), name(16));
    assert_eq!(node.close_group_len(&name(1)), 4);
    assert!(!node.poll_once());
    assert_eq!(node.poll(), 0);
    let a = public_chunk(vec![1]);
    let b = public_chunk(vec![2]);
    node.deliver(SrcLocation::Section(name(1)), put(&a, 1));
    node.deliver(SrcLocation::Section(name(1)), put(&b, 2));
    node.deliver(SrcLocation::Node(name(9)), put(&b, 3));
    assert!(node.poll_once());
    assert!(node.stores(&a.address));
    assert!(!node.stores(&b.address));
    assert_eq!(node.inbox.len(), 2);
    assert_eq!(node.poll(), 2);
    assert!(node.stores(&b.address));
    // the request of a client is dropped by a node that is no elder
    let actions = node.take_actions();
    assert_eq!(actions.len(), 2);
    match &actions[1] {
        Action::RespondToOurDataHandlers { rpc: Rpc::Response { message_id, .. }, .. } => {
            assert_eq!(*message_id, mid(2))
        }
        other => panic!("unexpected action {:?}", other),
    }
    assert_eq!(node.take_actions().len(), 0);
}

#[test]
fn a_client_takes_in_what_was_delivered() {
    let mut client = TestClient::new(name(9));
    assert!(!client.poll_once());
    client.deliver(answer(1));
    client.deliver(answer(2));
    client.deliver(answer(3));
    assert!(client.poll_once());
    assert_eq!(client.received.len(), 1);
    assert_eq!(client.poll(), 2);
    assert_eq!(client.inbox.len(), 0);
    let ids: Vec<MessageId> = client
        .received
        .iter()
        .map(|r| match r {
            Rpc::Response { message_id, .. } => *message_id,
            other => panic!("unexpected envelope {:?}", other),
        })
        .collect();
    assert_eq!(ids, vec![mid(1), mid(2), mid(3)]);
}

fn loaded(chunk: &Chunk) -> (Vec<TestNode>, Vec<TestClient>) {
    let mut nodes = section(3);
    nodes[0].deliver(SrcLocation::Section(name(1)), put(chunk, 1));
    nodes[0].deliver(SrcLocation::Section(name(1)), put(chunk, 2));
    nodes[2].deliver(SrcLocation::Section(name(1)), put(chunk, 3));
    let mut clients = vec![TestClient::new(name(9)), TestClient::new(name(10))];
    clients[1].deliver(answer(1));
    clients[1].deliver(answer(2));
    (nodes, clients)
}

fn drained(nodes: &[TestNode], clients: &[TestClient]) -> bool {
    nodes.iter().all(|n| n.inbox.is_empty()) && clients.iter().all(|c| c.inbox.is_empty())
}

#[test]
fn polling_counts_every_event_and_leaves_none() {
    let chunk = public_chunk(vec![1, 2, 3]);
    let (mut nodes, mut clients) = loaded(&chunk);
    assert_eq!(poll::nodes_and_clients(&mut nodes, &mut clients), 5);
    assert!(drained(&nodes, &clients));
    assert!(nodes[0].stores(&chunk.address) && nodes[2].stores(&chunk.address));
    assert!(!nodes[1].stores(&chunk.address));
    assert_eq!(nodes[0].outbox.len(), 2);
    assert_eq!(clients[1].received.len(), 2);
    assert_eq!(poll::nodes_and_clients(&mut nodes, &mut clients), 0);
    assert_eq!(poll::nodes_and_clients(&mut [], &mut []), 0);
}

#[test]
fn polling_the_nodes_leaves_the_clients_alone() {
    let chunk = public_chunk(vec![1, 2, 3]);
    let (mut nodes, clients) = loaded(&chunk);
    assert_eq!(poll::nodes(&mut nodes), 3);
    assert!(nodes.iter().all(|n| n.inbox.is_empty()));
    assert_eq!(clients[1].inbox.len(), 2);
}

#[test]
fn polling_with_one_client() {
    let chunk = public_chunk(vec![1, 2, 3]);
    let (mut nodes, mut clients) = loaded(&chunk);
    let mut client = clients.pop().unwrap();
    assert_eq!(poll::nodes_and_client(&mut nodes, &mut client), 5);
    assert_eq!(client.received.len(), 2);
    assert_eq!(client.inbox.len(), 0);
}

#[test]
fn polling_one_event_per_round() {
    let chunk = public_chunk(vec![1, 2, 3]);
    let (mut nodes, mut clients) = loaded(&chunk);
    assert_eq!(poll::nodes_and_clients_parallel(&mut nodes, &mut clients), 5);
    assert!(drained(&nodes, &clients));
    assert_eq!(nodes[0].outbox.len(), 2);
    assert_eq!(poll::nodes_and_clients_parallel(&mut nodes, &mut clients), 0);
}

#[test]
fn polling_with_resend_moves_the_clock_on() {
    assert_eq!(poll::MAX_POLL_CALLS, 1000);
    assert_eq!(poll::ACK_TIMEOUT_SECS, 20);
    assert_eq!(poll::NODE_CONNECT_TIMEOUT_SECS, 60);
    let chunk = public_chunk(vec![1, 2, 3]);
    let (mut nodes, mut clients) = loaded(&chunk);
    FakeClock::set_time(1000);
    assert_eq!(poll::nodes_and_clients_with_resend(&mut nodes, &mut clients), 5);
    assert!(drained(&nodes, &clients));
    assert_eq!(FakeClock::time(), 1000 + 3 * 20001);
    // the clock stops at the largest time there is
    FakeClock::set_time(u64::MAX - 5);
    let mut client = TestClient::new(name(9));
    client.deliver(answer(1));
    assert_eq!(poll::nodes_and_client_with_resend(&mut nodes, &mut client), 1);
    assert_eq!(FakeClock::time(), u64::MAX);
}

fn store_at(nodes: &mut [TestNode], chunk: &Chunk, at: &[XorName]) {
    for n in nodes.iter_mut() {
        if at.contains(&n.name()) {
            n.deliver(SrcLocation::Section(name(1)), put(chunk, 1));
        }
    }
    let _ = poll::nodes(nodes);
}

#[test]
fn a_chunk_belongs_at_the_nodes_closest_to_it() {
    assert_eq!(MIN_GROUP_SIZE, 4);
    let chunk = public_chunk(vec![1, 2, 3]);
    let names: Vec<XorName> = (1..=7u128).map(|i| name(i * 16)).collect();
    let closest = closest_k(&chunk.address.name, &names, 4);
    let mut nodes = section(7);
    assert!(!check_chunk(&chunk.address, &nodes));
    store_at(&mut nodes, &chunk, &closest);
    assert!(check_chunk(&chunk.address, &nodes));
    assert!(check_data(&vec![chunk.duplicate()], &nodes));
    assert!(check_data(&Vec::new(), &nodes));
    // a chunk that is nowhere is not where it belongs
    let other = public_chunk(vec![9]);
    assert!(!check_data(&vec![chunk.duplicate(), other], &nodes));
    // one of the closest is missing
    let mut short = section(7);
    store_at(&mut short, &chunk, &closest[1..]);
    assert!(!check_chunk(&chunk.address, &short));
    // a copy further out does no harm
    let mut wide = section(7);
    let five = closest_k(&chunk.address.name, &names, 5);
    store_at(&mut wide, &chunk, &five);
    assert!(check_chunk(&chunk.address, &wide));
    // the close group of the closest node is too small
    for n in wide.iter_mut() {
        if n.name() == closest[0] {
            n.group_size = 3;
        }
    }
    assert!(!check_chunk(&chunk.address, &wide));
    assert!(!check_chunk(&chunk.address, &[]));
}

#[test]
fn few_copies_of_a_deleted_chunk_may_linger() {
    assert_eq!(LINGERING_COPIES_LIMIT, 5);
    let chunk = public_chunk(vec![1, 2, 3]);
    let mut nodes = section(6);
    assert!(check_deleted_data(&[chunk.address], &nodes));
    store_at(&mut nodes, &chunk, &[name(16), name(32), name(48), name(64)]);
    assert!(check_deleted_data(&[chunk.address], &nodes));
    store_at(&mut nodes, &chunk, &[name(80)]);
    assert!(!check_deleted_data(&[chunk.address], &nodes));
    let unknown = ChunkAddress { kind: ChunkKind::Public, name: name(1) };
    assert!(check_deleted_data(&[unknown], &nodes));
    assert!(!check_deleted_data(&[unknown, chunk.address], &nodes));
    assert!(check_deleted_data(&[], &nodes));
}
