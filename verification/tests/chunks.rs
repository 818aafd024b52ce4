use vault_core::chunk_store::{chunk_address, check_address, ChunkStore};
use vault_core::codec::{decode_name, encode_name, encode_request};
use vault_core::data_handler::DataHandler;
use vault_core::handler::{duplication_id_of, quorum_of, IDataHandler, REPLICATION_FACTOR};
use vault_core::holder::IDataHolder;
use vault_core::holder_index::HolderIndex;
use vault_core::messages::{
    Action, Chunk, ChunkAddress, ChunkKind, Error, IDataRequest, MessageId, PublicId, Request,
    Response, Rpc, SrcLocation,
};
use vault_core::name::{closest_k, contains_name, sort_by_distance, sort_by_name, XorName};

fn name(n: u128) -> XorName {
    XorName { hi: 0, lo: n }
}

fn mid(n: u128) -> MessageId {
    MessageId(name(n))
}

fn public_chunk(bytes: Vec<u8>) -> Chunk {
    let address = chunk_address(ChunkKind::Public, &None, &bytes);
    Chunk { address, owner: None, bytes }
}

fn private_chunk(bytes: Vec<u8>, owner: XorName) -> Chunk {
    let address = chunk_address(ChunkKind::Private, &Some(owner), &bytes);
    Chunk { address, owner: Some(owner), bytes }
}

fn put_rpc(chunk: &Chunk, requester: PublicId, id: MessageId) -> Rpc {
    Rpc::Request {
        request: Request::IData(IDataRequest::Put(chunk.duplicate())),
        requester,
        message_id: id,
    }
}

fn mutation_of(action: &Option<Action>) -> Option<Result<(), Error>> {
    match action {
        Some(Action::RespondToOurDataHandlers {
            rpc: Rpc::Response { response: Response::Mutation(r), .. },
            ..
        }) => Some(*r),
        Some(Action::RespondToClientHandlers {
            rpc: Rpc::Response { response: Response::Mutation(r), .. },
            ..
        }) => Some(*r),
        _ => None,
    }
}

#[test]
fn lt_is_the_byte_order_of_names() {
    assert!(name(1).lt(&name(2)));
    assert!(!name(2).lt(&name(1)));
    assert!(!name(2).lt(&name(2)));
    assert!(XorName { hi: 0, lo: u128::MAX }.lt(&XorName { hi: 1, lo: 0 }));
}

#[test]
fn closer_goes_by_xor_distance() {
    let target = name(0b1000);
    // distances: 0b1001 -> 1, 0b0000 -> 8
    assert!(target.closer(&name(0b1001), &name(0b0000)));
    assert!(!target.closer(&name(0b0000), &name(0b1001)));
    assert!(!target.closer(&name(5), &name(5)));
    // the upper half weighs more than the lower half
    let far = XorName { hi: 1, lo: 0b1000 };
    assert!(target.closer(&name(u128::MAX), &far));
}

#[test]
fn sort_by_distance_orders_and_drops_repeats() {
    let target = name(4);
    let pool = vec![name(7), name(0), name(5), name(4), name(7)];
    // distances to 4: 7 -> 3, 0 -> 4, 5 -> 1, 4 -> 0
    let sorted = sort_by_distance(&target, &pool);
    assert_eq!(sorted, vec![name(4), name(5), name(7), name(0)]);
}

#[test]
fn closest_k_takes_the_k_closest() {
    let target = name(4);
    let pool = vec![name(7), name(0), name(5), name(4), name(12)];
    assert_eq!(closest_k(&target, &pool, 2), vec![name(4), name(5)]);
    assert_eq!(closest_k(&target, &pool, 0), Vec::<XorName>::new());
    assert_eq!(closest_k(&target, &pool, 9).len(), 5);
    assert_eq!(closest_k(&target, &Vec::new(), 3), Vec::<XorName>::new());
}

#[test]
fn contains_name_finds_what_is_there() {
    let pool = vec![name(1), name(2)];
    assert!(contains_name(&pool, &name(2)));
    assert!(!contains_name(&pool, &name(3)));
}

#[test]
fn names_read_back_from_their_bytes() {
    let n = XorName { hi: 0x0102030405060708090a0b0c0d0e0f10, lo: 0x1112131415161718191a1b1c1d1e1f20 };
    let mut bytes = Vec::new();
    encode_name(&mut bytes, &n);
    let expected: Vec<u8> = (1u8..=32).collect();
    assert_eq!(bytes, expected);
    let mut array = [0u8; 32];
    array.copy_from_slice(&bytes);
    assert_eq!(decode_name(&array), n);
}

#[test]
fn the_address_of_a_public_chunk_is_the_sha3_of_its_bytes() {
    let chunk = public_chunk(b"hello world".to_vec());
    assert_eq!(chunk.address.kind, ChunkKind::Public);
    assert_eq!(
        chunk.address.name,
        XorName {
            hi: 0x644bcc7e564373040999aac89e7622f3,
            lo: 0xca71fba1d972fd94a31c3bfbf24e3938,
        }
    );
    assert!(check_address(&chunk));
}

#[test]
fn the_address_of_a_private_chunk_depends_on_its_owner() {
    let a = private_chunk(vec![1, 2, 3], name(10));
    let b = private_chunk(vec![1, 2, 3], name(11));
    let c = public_chunk(vec![1, 2, 3]);
    assert_ne!(a.address.name, b.address.name);
    assert_ne!(a.address.name, c.address.name);
    assert!(check_address(&a));
    let mut forged = a.duplicate();
    forged.owner = Some(name(11));
    assert!(!check_address(&forged));
    let mut ownerless = a.duplicate();
    ownerless.owner = None;
    assert!(!check_address(&ownerless));
}

#[test]
fn the_encoding_of_a_get_request_is_fixed() {
    let address = ChunkAddress { kind: ChunkKind::Private, name: name(1) };
    let bytes = encode_request(&Request::IData(IDataRequest::Get(address)));
    let mut expected = vec![0u8, 1u8, 1u8];
    expected.extend_from_slice(&[0u8; 31]);
    expected.push(1);
    assert_eq!(bytes, expected);
    let sized = encode_request(&Request::MData(vec![9, 8]));
    assert_eq!(sized, vec![1, 2, 0, 0, 0, 0, 0, 0, 0, 9, 8]);
}

#[test]
fn store_then_get_gives_the_chunk_back() {
    let mut store = ChunkStore::new(100);
    let chunk = public_chunk(vec![1, 2, 3, 4]);
    assert_eq!(store.put(chunk.duplicate()), Ok(()));
    let got = store.get(&chunk.address).unwrap();
    assert_eq!(got.bytes, vec![1, 2, 3, 4]);
    assert_eq!(got.address, chunk.address);
    assert_eq!(got.owner, None);
    assert_eq!(chunk_address(got.address.kind, &got.owner, &got.bytes), chunk.address);
}

#[test]
fn get_of_an_unknown_address_is_no_such_data() {
    let store = ChunkStore::new(100);
    let address = ChunkAddress { kind: ChunkKind::Public, name: name(1) };
    assert_eq!(store.get(&address).err(), Some(Error::NoSuchData));
}

#[test]
fn put_refuses_a_chunk_whose_bytes_do_not_give_its_address() {
    let mut store = ChunkStore::new(100);
    let mut chunk = public_chunk(vec![1, 2, 3]);
    chunk.bytes.push(4);
    assert_eq!(store.put(chunk), Err(Error::AddressMismatch));
}

#[test]
fn put_refuses_what_exceeds_the_quota_and_reads_still_work() {
    let mut store = ChunkStore::new(5);
    let small = public_chunk(vec![1, 2, 3]);
    let big = public_chunk(vec![9, 9, 9]);
    assert_eq!(store.put(small.duplicate()), Ok(()));
    assert_eq!(store.put(big.duplicate()), Err(Error::QuotaExceeded));
    assert!(store.get(&small.address).is_ok());
    assert_eq!(store.get(&big.address).err(), Some(Error::NoSuchData));
    let fits = public_chunk(vec![7, 7]);
    assert_eq!(store.put(fits), Ok(()));
    let one_more = public_chunk(vec![5]);
    assert_eq!(store.put(one_more), Err(Error::QuotaExceeded));
}

#[test]
fn put_refuses_a_public_chunk_that_is_there() {
    let mut store = ChunkStore::new(100);
    let chunk = public_chunk(vec![1, 2, 3]);
    assert_eq!(store.put(chunk.duplicate()), Ok(()));
    assert_eq!(store.put(chunk.duplicate()), Err(Error::AlreadyExists));
}

#[test]
fn put_writes_over_a_private_chunk_of_the_same_owner() {
    let mut store = ChunkStore::new(3);
    let chunk = private_chunk(vec![1, 2, 3], name(7));
    assert_eq!(store.put(chunk.duplicate()), Ok(()));
    // the quota is full: a second copy is refused for the quota first
    assert_eq!(store.put(chunk.duplicate()), Err(Error::QuotaExceeded));
    let mut roomy = ChunkStore::new(6);
    assert_eq!(roomy.put(chunk.duplicate()), Ok(()));
    assert_eq!(roomy.put(chunk.duplicate()), Ok(()));
    // the space of one copy only is in use
    let other = public_chunk(vec![4, 5, 6]);
    assert_eq!(roomy.put(other), Ok(()));
}

#[test]
fn delete_is_for_the_owner_of_a_private_chunk() {
    let mut store = ChunkStore::new(3);
    let private = private_chunk(vec![1, 2, 3], name(7));
    let public = public_chunk(vec![1, 2, 3]);
    assert_eq!(store.delete(&public.address, &name(7)), Err(Error::InvalidOperation));
    assert_eq!(store.delete(&private.address, &name(7)), Err(Error::NoSuchData));
    assert_eq!(store.put(private.duplicate()), Ok(()));
    assert_eq!(store.delete(&private.address, &name(8)), Err(Error::AccessDenied));
    assert!(store.get(&private.address).is_ok());
    assert_eq!(store.delete(&private.address, &name(7)), Ok(()));
    assert_eq!(store.get(&private.address).err(), Some(Error::NoSuchData));
    // the space is free again
    assert_eq!(store.put(public), Ok(()));
}

#[test]
fn the_holder_answers_the_section_with_what_the_store_said() {
    let mut holder = IDataHolder::new(name(1), 100);
    let chunk = public_chunk(vec![1, 2, 3]);
    let src = SrcLocation::Section(name(50));
    let requester = PublicId::Client(name(9));
    let first = holder.store_idata(src, &chunk, requester, mid(1));
    assert_eq!(mutation_of(&first), Some(Ok(())));
    match first {
        Some(Action::RespondToOurDataHandlers {
            sender,
            rpc: Rpc::Response { requester: q, message_id, request_proof, .. },
        }) => {
            assert_eq!(sender, name(1));
            assert_eq!(q, requester);
            assert_eq!(message_id, mid(1));
            assert!(request_proof.is_none());
        }
        other => panic!("unexpected action {:?}", other),
    }
    let second = holder.store_idata(src, &chunk, requester, mid(2));
    assert_eq!(mutation_of(&second), Some(Err(Error::AlreadyExists)));
    match holder.get_idata(src, chunk.address, requester, mid(3)) {
        Some(Action::RespondToOurDataHandlers {
            rpc: Rpc::Response { response: Response::GetIData(Ok(got)), message_id, .. },
            ..
        }) => {
            assert_eq!(got.bytes, vec![1, 2, 3]);
            assert_eq!(message_id, mid(3));
        }
        other => panic!("unexpected action {:?}", other),
    }
    let missing = ChunkAddress { kind: ChunkKind::Public, name: name(77) };
    match holder.get_idata(src, missing, requester, mid(4)) {
        Some(Action::RespondToOurDataHandlers {
            rpc: Rpc::Response { response: Response::GetIData(Err(e)), .. },
            ..
        }) => assert_eq!(e, Error::NoSuchData),
        other => panic!("unexpected action {:?}", other),
    }
}

#[test]
fn the_holder_deletes_for_the_owner_only() {
    let mut holder = IDataHolder::new(name(1), 100);
    let chunk = private_chunk(vec![1, 2, 3], name(9));
    let src = SrcLocation::Section(name(50));
    let _ = holder.store_idata(src, &chunk, PublicId::Client(name(9)), mid(1));
    let denied = holder.delete_unpub_idata(chunk.address, PublicId::Client(name(8)), mid(2));
    assert_eq!(mutation_of(&denied), Some(Err(Error::AccessDenied)));
    let done = holder.delete_unpub_idata(chunk.address, PublicId::Client(name(9)), mid(3));
    assert_eq!(mutation_of(&done), Some(Ok(())));
    let gone = holder.delete_unpub_idata(chunk.address, PublicId::Client(name(9)), mid(4));
    assert_eq!(mutation_of(&gone), Some(Err(Error::NoSuchData)));
}

#[test]
fn the_holder_index_reads_in_both_directions() {
    let mut index = HolderIndex::new();
    let a = ChunkAddress { kind: ChunkKind::Public, name: name(1) };
    let b = ChunkAddress { kind: ChunkKind::Public, name: name(2) };
    index.insert(a, name(10));
    index.insert(a, name(11));
    index.insert(b, name(10));
    index.insert(a, name(10));
    assert_eq!(index.holders(&a), vec![name(10), name(11)]);
    assert_eq!(index.holders(&b), vec![name(10)]);
    assert_eq!(index.addresses_held_by(&name(10)), vec![a, b]);
    assert_eq!(index.addresses_held_by(&name(11)), vec![a]);
    assert!(index.contains(&a, &name(11)));
    index.remove(a, name(11));
    assert!(!index.contains(&a, &name(11)));
    assert_eq!(index.addresses_held_by(&name(11)), Vec::<ChunkAddress>::new());
    index.remove(a, name(99));
    assert_eq!(index.holders(&a), vec![name(10)]);
}

#[test]
fn quorum_is_two_thirds_rounded_up() {
    assert_eq!(quorum_of(0), 0);
    assert_eq!(quorum_of(1), 1);
    assert_eq!(quorum_of(2), 2);
    assert_eq!(quorum_of(3), 2);
    assert_eq!(quorum_of(4), 3);
    assert_eq!(quorum_of(7), 5);
    assert_eq!(REPLICATION_FACTOR, 4);
}

fn adults(n: u128) -> Vec<XorName> {
    (1..=n).map(|i| name(i * 16)).collect()
}

#[test]
fn a_put_goes_to_the_closest_adults_and_settles_at_the_quorum() {
    let mut elder = IDataHandler::new(name(1000), adults(7));
    let chunk = public_chunk(vec![1, 2, 3]);
    let client = PublicId::Client(name(9));
    let targets = closest_k(&chunk.address.name, &adults(7), 4);
    assert_eq!(targets.len(), 4);
    match elder.handle_put_idata_req(client, chunk.duplicate(), mid(1)) {
        Some(Action::SendMessage {
            sender,
            targets: to,
            rpc: Rpc::Request { request: Request::IData(IDataRequest::Put(c)), requester, message_id },
        }) => {
            assert_eq!(sender, name(1000));
            assert_eq!(to, targets);
            assert_eq!(c.bytes, vec![1, 2, 3]);
            assert_eq!(requester, client);
            assert_eq!(message_id, mid(1));
        }
        other => panic!("unexpected action {:?}", other),
    }
    // a second request under the same identifier is dropped
    assert!(elder.handle_put_idata_req(client, chunk.duplicate(), mid(1)).is_none());
    // an answer of a node that was not asked is dropped
    assert!(elder.handle_mutation_resp(name(5), Ok(()), mid(1)).is_none());
    assert!(elder.handle_mutation_resp(targets[0], Ok(()), mid(1)).is_none());
    // the same holder twice counts once
    assert!(elder.handle_mutation_resp(targets[0], Ok(()), mid(1)).is_none());
    assert!(elder.handle_mutation_resp(targets[1], Ok(()), mid(1)).is_none());
    let settled = elder.handle_mutation_resp(targets[2], Ok(()), mid(1));
    assert_eq!(mutation_of(&settled), Some(Ok(())));
    match settled {
        Some(Action::RespondToClientHandlers {
            sender,
            rpc: Rpc::Response { requester, message_id, .. },
        }) => {
            assert_eq!(sender, chunk.address.name);
            assert_eq!(requester, client);
            assert_eq!(message_id, mid(1));
        }
        other => panic!("unexpected action {:?}", other),
    }
    // a late answer finds no operation
    assert!(elder.handle_mutation_resp(targets[3], Ok(()), mid(1)).is_none());
    let mut holders = elder.index.holders(&chunk.address);
    holders.sort_by(|a, b| a.lo.cmp(&b.lo));
    let mut expected = vec![targets[0], targets[1], targets[2]];
    expected.sort_by(|a, b| a.lo.cmp(&b.lo));
    assert_eq!(holders, expected);
}

#[test]
fn a_put_that_cannot_reach_the_quorum_fails_with_the_latest_error() {
    let mut elder = IDataHandler::new(name(1000), adults(7));
    let chunk = public_chunk(vec![1, 2, 3]);
    let client = PublicId::Client(name(9));
    let targets = closest_k(&chunk.address.name, &adults(7), 4);
    let _ = elder.handle_put_idata_req(client, chunk.duplicate(), mid(1));
    assert!(elder.handle_mutation_resp(targets[0], Err(Error::QuotaExceeded), mid(1)).is_none());
    assert!(elder.handle_mutation_resp(targets[1], Ok(()), mid(1)).is_none());
    assert!(elder.handle_mutation_resp(targets[2], Err(Error::AlreadyExists), mid(1)).is_none());
    let settled = elder.handle_mutation_resp(targets[3], Ok(()), mid(1));
    assert_eq!(mutation_of(&settled), Some(Err(Error::AlreadyExists)));
    assert_eq!(elder.index.holders(&chunk.address), Vec::<XorName>::new());
    assert_eq!(elder.ops.len(), 0);
}

#[test]
fn a_put_without_adults_is_answered_at_once() {
    let mut elder = IDataHandler::new(name(1000), Vec::new());
    let chunk = public_chunk(vec![1, 2, 3]);
    let answer = elder.handle_put_idata_req(PublicId::Client(name(9)), chunk, mid(1));
    assert_eq!(mutation_of(&answer), Some(Err(Error::NoSuchData)));
    assert_eq!(elder.ops.len(), 0);
}

fn stored_elder(chunk: &Chunk, holders: &[XorName]) -> IDataHandler {
    let mut elder = IDataHandler::new(name(1000), adults(7));
    for h in holders {
        elder.index.insert(chunk.address, *h);
    }
    elder
}

fn get_target(action: &Option<Action>) -> Option<XorName> {
    match action {
        Some(Action::SendMessage {
            targets,
            rpc: Rpc::Request { request: Request::IData(IDataRequest::Get(_)), .. },
            ..
        }) if targets.len() == 1 => Some(targets[0]),
        _ => None,
    }
}

#[test]
fn a_get_asks_the_closest_holder_and_then_the_next() {
    let chunk = public_chunk(vec![1, 2, 3]);
    let held = vec![name(16), name(48), name(80)];
    let mut elder = stored_elder(&chunk, &held);
    let order = sort_by_distance(&chunk.address.name, &held);
    let client = PublicId::Client(name(9));
    let first = elder.handle_get_idata_req(client, chunk.address, mid(1));
    assert_eq!(get_target(&first), Some(order[0]));
    // an answer from a holder that is not being asked is dropped
    assert!(elder.handle_get_idata_resp(order[1], Err(Error::NoSuchData), mid(1)).is_none());
    let second = elder.handle_get_idata_resp(order[0], Err(Error::NoSuchData), mid(1));
    assert_eq!(get_target(&second), Some(order[1]));
    // a chunk that is not the one asked for counts as a failure
    let wrong = public_chunk(vec![9]);
    let third = elder.handle_get_idata_resp(order[1], Ok(wrong), mid(1));
    assert_eq!(get_target(&third), Some(order[2]));
    match elder.handle_get_idata_resp(order[2], Ok(chunk.duplicate()), mid(1)) {
        Some(Action::RespondToClientHandlers {
            rpc: Rpc::Response { response: Response::GetIData(Ok(got)), requester, message_id, .. },
            ..
        }) => {
            assert_eq!(got.bytes, vec![1, 2, 3]);
            assert_eq!(chunk_address(got.address.kind, &got.owner, &got.bytes), chunk.address);
            assert_eq!(requester, client);
            assert_eq!(message_id, mid(1));
        }
        other => panic!("unexpected action {:?}", other),
    }
    assert_eq!(elder.ops.len(), 0);
}

#[test]
fn a_get_that_no_holder_can_serve_ends_in_no_such_data() {
    let chunk = public_chunk(vec![1, 2, 3]);
    let held = vec![name(16), name(48)];
    let mut elder = stored_elder(&chunk, &held);
    let order = sort_by_distance(&chunk.address.name, &held);
    let client = PublicId::Client(name(9));
    let _ = elder.handle_get_idata_req(client, chunk.address, mid(1));
    let _ = elder.handle_get_idata_resp(order[0], Err(Error::NoSuchData), mid(1));
    match elder.handle_get_idata_resp(order[1], Err(Error::AccessDenied), mid(1)) {
        Some(Action::RespondToClientHandlers {
            rpc: Rpc::Response { response: Response::GetIData(Err(e)), .. },
            ..
        }) => assert_eq!(e, Error::NoSuchData),
        other => panic!("unexpected action {:?}", other),
    }
    // a chunk without holders is answered at once
    let unknown = ChunkAddress { kind: ChunkKind::Public, name: name(3) };
    match elder.handle_get_idata_req(client, unknown, mid(2)) {
        Some(Action::RespondToClientHandlers {
            rpc: Rpc::Response { response: Response::GetIData(Err(e)), .. },
            ..
        }) => assert_eq!(e, Error::NoSuchData),
        other => panic!("unexpected action {:?}", other),
    }
}

#[test]
fn a_get_leaves_out_holders_that_are_no_adults_now() {
    let chunk = public_chunk(vec![1, 2, 3]);
    let held = vec![name(16), name(48), name(999)];
    let mut elder = stored_elder(&chunk, &held);
    let live = sort_by_distance(&chunk.address.name, &vec![name(16), name(48)]);
    let first = elder.handle_get_idata_req(PublicId::Client(name(9)), chunk.address, mid(1));
    assert_eq!(get_target(&first), Some(live[0]));
    assert_eq!(elder.ops[0].holders, live);
}

#[test]
fn a_delete_goes_to_the_holders_and_strikes_them_all() {
    let chunk = private_chunk(vec![1, 2, 3], name(9));
    let held = vec![name(16), name(48), name(80)];
    let mut elder = stored_elder(&chunk, &held);
    let owner = PublicId::Client(name(9));
    match elder.handle_delete_unpub_idata_req(owner, chunk.address, mid(1)) {
        Some(Action::SendMessage {
            targets,
            rpc: Rpc::Request { request: Request::IData(IDataRequest::DeleteUnpub(a)), .. },
            ..
        }) => {
            assert_eq!(targets, held);
            assert_eq!(a, chunk.address);
        }
        other => panic!("unexpected action {:?}", other),
    }
    let other = private_chunk(vec![4, 5, 6], name(9));
    elder.index.insert(other.address, name(48));
    assert!(elder.handle_mutation_resp(name(16), Ok(()), mid(1)).is_none());
    let settled = elder.handle_mutation_resp(name(80), Ok(()), mid(1));
    assert_eq!(mutation_of(&settled), Some(Ok(())));
    // nobody holds the chunk any more, the holder that has not answered included
    assert_eq!(elder.index.holders(&chunk.address), Vec::<XorName>::new());
    assert_eq!(elder.index.holders(&other.address), vec![name(48)]);
    assert_eq!(elder.ops.len(), 0);
    assert!(elder.handle_mutation_resp(name(48), Ok(()), mid(1)).is_none());
    // a delete that fails strikes nobody
    let kept = private_chunk(vec![7, 8, 9], name(9));
    for h in &held {
        elder.index.insert(kept.address, *h);
    }
    let _ = elder.handle_delete_unpub_idata_req(owner, kept.address, mid(5));
    assert!(elder.handle_mutation_resp(name(16), Err(Error::AccessDenied), mid(5)).is_none());
    assert!(elder.handle_mutation_resp(name(48), Ok(()), mid(5)).is_none());
    let failed = elder.handle_mutation_resp(name(80), Err(Error::NoSuchData), mid(5));
    assert_eq!(mutation_of(&failed), Some(Err(Error::NoSuchData)));
    assert_eq!(elder.index.holders(&kept.address), held);
    let public = ChunkAddress { kind: ChunkKind::Public, name: name(3) };
    let refused = elder.handle_delete_unpub_idata_req(owner, public, mid(2));
    assert_eq!(mutation_of(&refused), Some(Err(Error::InvalidOperation)));
    let unknown = ChunkAddress { kind: ChunkKind::Private, name: name(3) };
    let missing = elder.handle_delete_unpub_idata_req(owner, unknown, mid(3));
    assert_eq!(mutation_of(&missing), Some(Err(Error::NoSuchData)));
}

#[test]
fn the_loss_of_a_holder_orders_one_copy_per_chunk() {
    let chunk = public_chunk(vec![1, 2, 3]);
    let held = vec![name(16), name(48), name(80)];
    let mut elder = stored_elder(&chunk, &held);
    let lost = name(48);
    let eligible: Vec<XorName> = adults(7).into_iter().filter(|a| !held.contains(a)).collect();
    let new_holder = closest_k(&chunk.address.name, &eligible, 1)[0];
    let id = duplication_id_of(&chunk.address, &lost);
    let actions = elder.trigger_data_copy_process(lost).unwrap();
    assert_eq!(actions.len(), 1);
    match &actions[0] {
        Action::SendMessage {
            sender,
            targets,
            rpc: Rpc::Duplicate { address, holders, message_id },
        } => {
            assert_eq!(*sender, name(1000));
            assert_eq!(targets, &vec![new_holder]);
            assert_eq!(*address, chunk.address);
            assert_eq!(holders, &vec![name(16), name(80)]);
            assert_eq!(*message_id, id);
        }
        other => panic!("unexpected action {:?}", other),
    }
    assert!(!contains_name(&elder.adults, &lost));
    // the signal once more orders nothing: the repair is in flight
    assert_eq!(elder.trigger_data_copy_process(lost).unwrap().len(), 0);
    // the holders change when the new holder reports
    assert_eq!(elder.index.holders(&chunk.address), held);
    assert!(elder.update_idata_holders(name(16), Ok(()), id).is_none());
    assert_eq!(elder.index.holders(&chunk.address), held);
    assert!(elder.update_idata_holders(new_holder, Ok(()), id).is_none());
    assert_eq!(elder.index.holders(&chunk.address), vec![name(16), name(80), new_holder]);
    assert_eq!(elder.duplications.len(), 0);
}

#[test]
fn the_identifier_of_a_repair_is_the_same_at_every_elder() {
    let a = ChunkAddress { kind: ChunkKind::Public, name: name(1) };
    assert_eq!(duplication_id_of(&a, &name(2)), duplication_id_of(&a, &name(2)));
    assert_ne!(duplication_id_of(&a, &name(2)), duplication_id_of(&a, &name(3)));
    assert_ne!(duplication_id_of(&a, &name(2)), MessageId(name(2)));
}

#[test]
fn duplicate_order_dedup() {
    let mut node = DataHandler::new(name(5), 100, false, Vec::new());
    let address = ChunkAddress { kind: ChunkKind::Public, name: name(1) };
    let holders = vec![name(16), name(32), name(48), name(64)];
    let mut gets = 0;
    for _ in 0..3 {
        let order = Rpc::Duplicate { address, holders: holders.clone(), message_id: mid(42) };
        match node.handle_vault_rpc(SrcLocation::Section(name(1)), order) {
            Some(Action::SendMessage {
                sender,
                targets,
                rpc:
                    Rpc::Request {
                        request: Request::IData(IDataRequest::Get(a)),
                        requester,
                        message_id,
                    },
            }) => {
                gets += 1;
                assert_eq!(sender, name(5));
                assert_eq!(targets, holders);
                assert_eq!(a, address);
                assert_eq!(requester, PublicId::Node(name(5)));
                assert_eq!(message_id, mid(42));
            }
            None => {}
            other => panic!("unexpected action {:?}", other),
        }
    }
    assert_eq!(gets, 1);
    assert_eq!(node.idata_duplicate_op, vec![mid(42)]);
}

#[test]
fn a_fetched_copy_is_stored_and_reported() {
    let mut node = DataHandler::new(name(5), 100, false, Vec::new());
    let chunk = public_chunk(vec![1, 2, 3]);
    let order = Rpc::Duplicate { address: chunk.address, holders: vec![name(16)], message_id: mid(42) };
    let _ = node.handle_vault_rpc(SrcLocation::Section(name(1)), order);
    let failed = Rpc::Response {
        response: Response::GetIData(Err(Error::NoSuchData)),
        requester: PublicId::Node(name(5)),
        message_id: mid(42),
        request_proof: None,
    };
    assert!(node.handle_vault_rpc(SrcLocation::Node(name(16)), failed).is_none());
    assert_eq!(node.idata_duplicate_op, vec![mid(42)]);
    let copy = Rpc::Response {
        response: Response::GetIData(Ok(chunk.duplicate())),
        requester: PublicId::Node(name(5)),
        message_id: mid(42),
        request_proof: None,
    };
    match node.handle_vault_rpc(SrcLocation::Node(name(16)), copy) {
        Some(Action::RespondToOurDataHandlers {
            sender,
            rpc: Rpc::DuplicationComplete { response: Response::Mutation(r), message_id },
        }) => {
            assert_eq!(sender, name(5));
            assert_eq!(r, Ok(()));
            assert_eq!(message_id, mid(42));
        }
        other => panic!("unexpected action {:?}", other),
    }
    assert_eq!(node.idata_duplicate_op, Vec::<MessageId>::new());
    assert!(node.idata_holder.chunks.get(&chunk.address).is_ok());
}

#[test]
fn the_same_request_means_two_things() {
    let chunk = public_chunk(vec![1, 2, 3]);
    let client = PublicId::Client(name(9));
    // from a client, to an elder: find holders
    let mut elder = DataHandler::new(name(1000), 100, true, adults(7));
    match elder.handle_vault_rpc(SrcLocation::Node(name(9)), put_rpc(&chunk, client, mid(1))) {
        Some(Action::SendMessage { targets, .. }) => assert_eq!(targets.len(), 4),
        other => panic!("unexpected action {:?}", other),
    }
    assert!(elder.idata_holder.chunks.get(&chunk.address).is_err());
    // from a section: hold the chunk
    let held = elder.handle_vault_rpc(SrcLocation::Section(name(1)), put_rpc(&chunk, client, mid(2)));
    assert_eq!(mutation_of(&held), Some(Ok(())));
    assert!(elder.idata_holder.chunks.get(&chunk.address).is_ok());
    // from a client, to a node that is no elder: dropped
    let mut adult = DataHandler::new(name(16), 100, false, Vec::new());
    assert!(adult
        .handle_vault_rpc(SrcLocation::Node(name(9)), put_rpc(&chunk, client, mid(3)))
        .is_none());
    // a read that a node asks for in its own name is served by the holder
    let get = Rpc::Request {
        request: Request::IData(IDataRequest::Get(chunk.address)),
        requester: PublicId::Node(name(16)),
        message_id: mid(4),
    };
    match elder.handle_vault_rpc(SrcLocation::Node(name(16)), get) {
        Some(Action::RespondToOurDataHandlers {
            rpc: Rpc::Response { response: Response::GetIData(Ok(got)), .. },
            ..
        }) => assert_eq!(got.bytes, vec![1, 2, 3]),
        other => panic!("unexpected action {:?}", other),
    }
}

#[test]
fn other_requests_are_handed_on_by_elders_or_dropped() {
    let client = PublicId::Client(name(9));
    let mut elder = DataHandler::new(name(1000), 100, true, adults(7));
    let mut adult = DataHandler::new(name(16), 100, false, Vec::new());
    let mdata = |id| Rpc::Request { request: Request::MData(vec![1, 2]), requester: client, message_id: id };
    match elder.handle_vault_rpc(SrcLocation::Node(name(9)), mdata(mid(1))) {
        Some(Action::HandleMData { requester, payload, message_id }) => {
            assert_eq!(requester, client);
            assert_eq!(payload, vec![1, 2]);
            assert_eq!(message_id, mid(1));
        }
        other => panic!("unexpected action {:?}", other),
    }
    assert!(adult.handle_vault_rpc(SrcLocation::Node(name(9)), mdata(mid(1))).is_none());
    let adata = Rpc::Request { request: Request::AData(vec![3]), requester: client, message_id: mid(2) };
    assert!(matches!(
        elder.handle_vault_rpc(SrcLocation::Node(name(9)), adata),
        Some(Action::HandleAData { .. })
    ));
    let coins = Rpc::Request { request: Request::Coins(vec![3]), requester: client, message_id: mid(3) };
    assert!(elder.handle_vault_rpc(SrcLocation::Node(name(9)), coins).is_none());
    let other = Rpc::Response {
        response: Response::Other,
        requester: client,
        message_id: mid(4),
        request_proof: None,
    };
    assert!(elder.handle_vault_rpc(SrcLocation::Node(name(9)), other).is_none());
    assert!(elder.trigger_chunk_duplication(name(16)).is_some());
    assert!(adult.trigger_chunk_duplication(name(16)).is_none());
}

fn deliver(nodes: &mut Vec<DataHandler>, to: XorName, src: SrcLocation, rpc: Rpc) -> Option<Action> {
    for node in nodes.iter_mut() {
        if node.id == to {
            return node.handle_vault_rpc(src, rpc);
        }
    }
    panic!("no node named {:?}", to);
}

#[test]
fn replication_on_churn() {
    let names = adults(7);
    let mut nodes: Vec<DataHandler> =
        names.iter().map(|n| DataHandler::new(*n, 1000, false, Vec::new())).collect();
    let mut elder = DataHandler::new(name(1000), 1000, true, names.clone());
    let section = SrcLocation::Section(name(1000));
    let chunk = public_chunk(vec![1, 2, 3, 4, 5]);
    let client = PublicId::Client(name(9));

    let targets = match elder.handle_vault_rpc(SrcLocation::Node(name(9)), put_rpc(&chunk, client, mid(1))) {
        Some(Action::SendMessage { targets, .. }) => targets,
        other => panic!("unexpected action {:?}", other),
    };
    assert_eq!(targets, closest_k(&chunk.address.name, &names, 4));
    let mut told = 0;
    for t in &targets {
        let answer = deliver(&mut nodes, *t, section, put_rpc(&chunk, client, mid(1)));
        let rpc = match answer {
            Some(Action::RespondToOurDataHandlers { rpc, .. }) => rpc,
            other => panic!("unexpected action {:?}", other),
        };
        if let Some(a) = elder.handle_vault_rpc(SrcLocation::Node(*t), rpc) {
            assert_eq!(mutation_of(&Some(a)), Some(Ok(())));
            told += 1;
        }
    }
    assert_eq!(told, 1);
    let before = elder.idata_handler.as_ref().unwrap().index.holders(&chunk.address);
    assert_eq!(before, vec![targets[0], targets[1], targets[2]]);
    for t in &targets {
        let n = nodes.iter().find(|n| n.id == *t).unwrap();
        assert!(n.idata_holder.chunks.get(&chunk.address).is_ok());
    }

    // the adult closest to the chunk leaves
    let lost = targets[0];
    let orders = elder.trigger_chunk_duplication(lost).unwrap();
    assert_eq!(orders.len(), 1);
    let mut rounds = 0;
    for order in orders {
        let (new_holder, rpc) = match order {
            Action::SendMessage { mut targets, rpc, .. } => (targets.pop().unwrap(), rpc),
            other => panic!("unexpected action {:?}", other),
        };
        assert_ne!(new_holder, lost);
        let (sources, get) = match deliver(&mut nodes, new_holder, section, rpc) {
            Some(Action::SendMessage { targets, rpc, .. }) => (targets, rpc),
            other => panic!("unexpected action {:?}", other),
        };
        assert!(!sources.contains(&lost));
        let source = sources[0];
        let got = match deliver(&mut nodes, source, SrcLocation::Node(new_holder), get) {
            Some(Action::RespondToOurDataHandlers { rpc, .. }) => rpc,
            other => panic!("unexpected action {:?}", other),
        };
        let report = match deliver(&mut nodes, new_holder, SrcLocation::Node(source), got) {
            Some(Action::RespondToOurDataHandlers { rpc, .. }) => rpc,
            other => panic!("unexpected action {:?}", other),
        };
        assert!(elder.handle_vault_rpc(SrcLocation::Node(new_holder), report).is_none());
        rounds += 1;
    }
    assert_eq!(rounds, 1);
    let after = elder.idata_handler.as_ref().unwrap().index.holders(&chunk.address);
    assert_eq!(after.len(), before.len());
    assert!(!after.contains(&lost));
    for h in &after {
        let n = nodes.iter().find(|n| n.id == *h).unwrap();
        assert!(n.idata_holder.chunks.get(&chunk.address).is_ok());
    }
}

#[test]
fn an_operation_that_was_given_up_takes_no_late_answer() {
    let mut elder = IDataHandler::new(name(1000), adults(7));
    let chunk = public_chunk(vec![1, 2, 3]);
    let targets = closest_k(&chunk.address.name, &adults(7), 4);
    let _ = elder.handle_put_idata_req(PublicId::Client(name(9)), chunk.duplicate(), mid(1));
    assert!(elder.handle_mutation_resp(targets[0], Ok(()), mid(1)).is_none());
    assert!(elder.cancel(mid(1)));
    assert!(!elder.cancel(mid(1)));
    assert_eq!(elder.ops.len(), 0);
    for t in &targets {
        assert!(elder.handle_mutation_resp(*t, Ok(()), mid(1)).is_none());
    }
    assert_eq!(elder.index.holders(&chunk.address), Vec::<XorName>::new());
}

#[test]
fn a_read_that_runs_out_of_time_asks_the_next_holder() {
    let chunk = public_chunk(vec![1, 2, 3]);
    let held = vec![name(16), name(48)];
    let mut elder = stored_elder(&chunk, &held);
    let order = sort_by_distance(&chunk.address.name, &held);
    assert!(elder.handle_get_timeout(mid(1)).is_none());
    let _ = elder.handle_get_idata_req(PublicId::Client(name(9)), chunk.address, mid(1));
    let second = elder.handle_get_timeout(mid(1));
    assert_eq!(get_target(&second), Some(order[1]));
    match elder.handle_get_timeout(mid(1)) {
        Some(Action::RespondToClientHandlers {
            rpc: Rpc::Response { response: Response::GetIData(Err(e)), .. },
            ..
        }) => assert_eq!(e, Error::NoSuchData),
        other => panic!("unexpected action {:?}", other),
    }
    assert!(elder.handle_get_timeout(mid(1)).is_none());
    // a write does not run out of time this way
    let _ = elder.handle_put_idata_req(PublicId::Client(name(9)), chunk.duplicate(), mid(2));
    assert!(elder.handle_get_timeout(mid(2)).is_none());
    assert_eq!(elder.ops.len(), 1);
}

#[test]
fn a_copy_that_was_given_up_can_be_ordered_again() {
    let mut node = DataHandler::new(name(5), 100, false, Vec::new());
    let address = ChunkAddress { kind: ChunkKind::Public, name: name(1) };
    let order = || Rpc::Duplicate { address, holders: vec![name(16)], message_id: mid(42) };
    assert!(node.handle_vault_rpc(SrcLocation::Section(name(1)), order()).is_some());
    assert!(node.handle_vault_rpc(SrcLocation::Section(name(1)), order()).is_none());
    node.forget_copy(&mid(42));
    node.forget_copy(&mid(43));
    assert!(node.handle_vault_rpc(SrcLocation::Section(name(1)), order()).is_some());
}

#[test]
fn a_copy_that_the_new_holder_had_already_counts() {
    let chunk = public_chunk(vec![1, 2, 3]);
    let held = vec![name(16), name(48), name(80)];
    let mut elder = stored_elder(&chunk, &held);
    let lost = name(16);
    let actions = elder.trigger_data_copy_process(lost).unwrap();
    let new_holder = match &actions[0] {
        Action::SendMessage { targets, .. } => targets[0],
        other => panic!("unexpected action {:?}", other),
    };
    let id = duplication_id_of(&chunk.address, &lost);
    assert!(elder.update_idata_holders(new_holder, Err(Error::AlreadyExists), id).is_none());
    assert_eq!(elder.index.holders(&chunk.address), vec![name(48), name(80), new_holder]);
    // a copy that failed strikes the lost holder and adds none
    let lost = name(48);
    let actions = elder.trigger_data_copy_process(lost).unwrap();
    let new_holder = match &actions[0] {
        Action::SendMessage { targets, .. } => targets[0],
        other => panic!("unexpected action {:?}", other),
    };
    let id = duplication_id_of(&chunk.address, &lost);
    assert!(elder.update_idata_holders(new_holder, Err(Error::QuotaExceeded), id).is_none());
    assert_eq!(elder.index.holders(&chunk.address).len(), 2);
    assert!(!elder.index.contains(&chunk.address, &lost));
}

#[test]
fn the_holder_index_comes_back_from_its_pairs() {
    let mut index = HolderIndex::new();
    let a = ChunkAddress { kind: ChunkKind::Public, name: name(1) };
    let b = ChunkAddress { kind: ChunkKind::Private, name: name(1) };
    index.insert(a, name(10));
    index.insert(b, name(10));
    index.insert(a, name(11));
    let pairs = index.pairs();
    assert_eq!(pairs, vec![(a, name(10)), (b, name(10)), (a, name(11))]);
    let mut twice = pairs.clone();
    twice.extend(pairs.clone());
    let back = HolderIndex::from_pairs(&twice);
    assert_eq!(back.pairs(), pairs);
    assert_eq!(back.holders(&a), vec![name(10), name(11)]);
    assert_eq!(HolderIndex::from_pairs(&Vec::new()).pairs(), Vec::new());
}

#[test]
fn the_store_lists_its_addresses() {
    let mut store = ChunkStore::new(100);
    assert_eq!(store.addresses(), Vec::<ChunkAddress>::new());
    let a = public_chunk(vec![1]);
    let b = private_chunk(vec![2], name(7));
    store.put(a.duplicate()).unwrap();
    store.put(b.duplicate()).unwrap();
    assert_eq!(store.addresses(), vec![a.address, b.address]);
    store.delete(&b.address, &name(7)).unwrap();
    assert_eq!(store.addresses(), vec![a.address]);
}

#[test]
fn the_holder_index_forgets_a_chunk() {
    let mut index = HolderIndex::new();
    let a = ChunkAddress { kind: ChunkKind::Public, name: name(1) };
    let b = ChunkAddress { kind: ChunkKind::Private, name: name(1) };
    index.insert(a, name(10));
    index.insert(b, name(10));
    index.insert(a, name(11));
    index.remove_address(a);
    assert_eq!(index.pairs(), vec![(b, name(10))]);
    index.remove_address(a);
    assert_eq!(index.pairs(), vec![(b, name(10))]);
}

#[test]
fn a_delete_at_the_holder_takes_that_chunk_alone_and_frees_its_space() {
    let mut holder = IDataHolder::new(name(1), 6);
    let src = SrcLocation::Section(name(50));
    let owner = PublicId::Client(name(9));
    let first = private_chunk(vec![1, 2, 3], name(9));
    let second = private_chunk(vec![4, 5], name(9));
    let third = public_chunk(vec![6]);
    for (i, c) in [&first, &second, &third].into_iter().enumerate() {
        let stored = holder.store_idata(src, c, owner, mid(i as u128));
        assert_eq!(mutation_of(&stored), Some(Ok(())));
    }
    // the store is full
    let more = public_chunk(vec![7]);
    assert_eq!(
        mutation_of(&holder.store_idata(src, &more, owner, mid(10))),
        Some(Err(Error::QuotaExceeded))
    );
    // a delete that is refused changes nothing
    let denied = holder.delete_unpub_idata(first.address, PublicId::Client(name(8)), mid(11));
    assert_eq!(mutation_of(&denied), Some(Err(Error::AccessDenied)));
    assert_eq!(holder.chunks.addresses().len(), 3);
    assert_eq!(holder.chunks.get(&first.address).unwrap().bytes, vec![1, 2, 3]);
    // a delete that is done takes the one chunk
    let done = holder.delete_unpub_idata(first.address, owner, mid(12));
    assert_eq!(mutation_of(&done), Some(Ok(())));
    assert_eq!(holder.chunks.get(&first.address).err(), Some(Error::NoSuchData));
    assert_eq!(holder.chunks.get(&second.address).unwrap().bytes, vec![4, 5]);
    assert_eq!(holder.chunks.get(&second.address).unwrap().owner, Some(name(9)));
    assert_eq!(holder.chunks.get(&third.address).unwrap().bytes, vec![6]);
    assert_eq!(holder.chunks.addresses(), vec![second.address, third.address]);
    // three bytes are free again, and no more
    let fits = public_chunk(vec![8, 9, 10]);
    let too_long = public_chunk(vec![8, 9, 10, 11]);
    assert_eq!(
        mutation_of(&holder.store_idata(src, &too_long, owner, mid(13))),
        Some(Err(Error::QuotaExceeded))
    );
    assert_eq!(mutation_of(&holder.store_idata(src, &fits, owner, mid(14))), Some(Ok(())));
}

#[test]
fn an_elder_takes_its_holders_from_the_pairs_that_were_kept() {
    let a = ChunkAddress { kind: ChunkKind::Public, name: name(1) };
    let b = ChunkAddress { kind: ChunkKind::Private, name: name(2) };
    let mut elder = IDataHandler::new(name(100), adults(6));
    elder.index.insert(b, name(3));
    elder.restore_index(&vec![(a, name(1)), (a, name(2)), (a, name(1))]);
    assert_eq!(elder.index.pairs(), vec![(a, name(1)), (a, name(2))]);
    assert_eq!(elder.index.holders(&b), Vec::new());
    assert_eq!(elder.adults, adults(6));
    assert_eq!(elder.id, name(100));
    elder.restore_index(&Vec::new());
    assert_eq!(elder.index.pairs(), Vec::new());
}

#[test]
fn names_sort_as_their_bytes_do() {
    let high = XorName { hi: 1, lo: 0 };
    let top = XorName { hi: u128::MAX, lo: u128::MAX };
    let pool = vec![name(48), top, name(16), high, name(48), name(0), name(u128::MAX), name(16)];
    assert_eq!(
        sort_by_name(&pool),
        vec![name(0), name(16), name(48), name(u128::MAX), high, top]
    );
    assert_eq!(sort_by_name(&Vec::new()), Vec::new());
    let bytes_of = |n: &XorName| {
        let mut out = Vec::new();
        encode_name(&mut out, n);
        out
    };
    let mut by_bytes: Vec<Vec<u8>> = pool.iter().map(bytes_of).collect();
    by_bytes.sort();
    by_bytes.dedup();
    let sorted: Vec<Vec<u8>> = sort_by_name(&pool).iter().map(bytes_of).collect();
    assert_eq!(sorted, by_bytes);
}

#[test]
fn a_copy_is_asked_of_each_holder_once() {
    let mut node = DataHandler::new(name(5), 100, false, Vec::new());
    let address = ChunkAddress { kind: ChunkKind::Public, name: name(1) };
    let holders = vec![name(64), name(16), name(64), name(32), name(16)];
    let order = Rpc::Duplicate { address, holders, message_id: mid(42) };
    match node.handle_vault_rpc(SrcLocation::Section(name(1)), order) {
        Some(Action::SendMessage { targets, .. }) => {
            assert_eq!(targets, vec![name(16), name(32), name(64)])
        }
        other => panic!("unexpected action {:?}", other),
    }
}
