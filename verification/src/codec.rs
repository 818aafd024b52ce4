//! The byte form of the values that are hashed, signed or paid for by size.
//! Every value has one encoding, stated as a spec function; the encoders are
//! proved to produce it.

use crate::messages::{
    Chunk, ChunkAddress, ChunkKind, ChunkWrite, IDataRequest, NodeRequest, Request,
};
use crate::name::XorName;
use vstd::bytes::{spec_u128_to_le_bytes, spec_u64_to_le_bytes, u128_to_le_bytes, u64_to_le_bytes};
use vstd::bytes::{
    lemma_auto_spec_u128_to_from_le_bytes, spec_u128_from_le_bytes, u128_from_le_bytes,
};
use vstd::prelude::*;

verus! {

/// The 16 bytes of `x`, most significant first.
pub open spec fn be_bytes(x: u128) -> Seq<u8> {
    Seq::new(16, |i: int| spec_u128_to_le_bytes(x)[15 - i])
}

/// The number that 16 bytes spell, most significant first.
pub open spec fn be_value(s: Seq<u8>) -> u128 {
    spec_u128_from_le_bytes(Seq::new(16, |i: int| s[15 - i]))
}

/// The 32 bytes of a name.
pub open spec fn name_bytes(n: XorName) -> Seq<u8> {
    be_bytes(n.hi) + be_bytes(n.lo)
}

/// The name that 32 bytes spell.
pub open spec fn name_from_bytes(s: Seq<u8>) -> XorName {
    XorName { hi: be_value(s.subrange(0, 16)), lo: be_value(s.subrange(16, 32)) }
}

/// A byte string behind its length, the length as 8 bytes.
pub open spec fn sized_bytes(b: Seq<u8>) -> Seq<u8> {
    spec_u64_to_le_bytes(b.len() as u64) + b
}

pub open spec fn address_encoding(a: ChunkAddress) -> Seq<u8> {
    seq![if a.kind == ChunkKind::Public { 0u8 } else { 1u8 }] + name_bytes(a.name)
}

pub open spec fn owner_encoding(o: Option<XorName>) -> Seq<u8> {
    match o {
        Some(n) => seq![1u8] + name_bytes(n),
        None => seq![0u8],
    }
}

pub open spec fn chunk_encoding(c: Chunk) -> Seq<u8> {
    address_encoding(c.address) + owner_encoding(c.owner) + sized_bytes(c.bytes@)
}

pub open spec fn request_encoding(r: Request) -> Seq<u8> {
    match r {
        Request::IData(IDataRequest::Put(c)) => seq![0u8, 0u8] + chunk_encoding(c),
        Request::IData(IDataRequest::Get(a)) => seq![0u8, 1u8] + address_encoding(a),
        Request::IData(IDataRequest::DeleteUnpub(a)) => seq![0u8, 2u8] + address_encoding(a),
        Request::MData(b) => seq![1u8] + sized_bytes(b@),
        Request::AData(b) => seq![2u8] + sized_bytes(b@),
        Request::Coins(b) => seq![3u8] + sized_bytes(b@),
        Request::LoginPacket(b) => seq![4u8] + sized_bytes(b@),
        Request::Client(b) => seq![5u8] + sized_bytes(b@),
        Request::Node(NodeRequest::Read(a)) => seq![6u8, 0u8] + address_encoding(a),
        Request::Node(NodeRequest::Write(ChunkWrite::New(c))) => seq![6u8, 1u8] + chunk_encoding(c),
        Request::Node(NodeRequest::Write(ChunkWrite::DeletePrivate(a))) => seq![6u8, 2u8]
            + address_encoding(a),
    }
}

/// The bytes that a change to the chunks is paid for as.
pub open spec fn write_encoding(w: ChunkWrite) -> Seq<u8> {
    match w {
        ChunkWrite::New(c) => seq![0u8] + chunk_encoding(c),
        ChunkWrite::DeletePrivate(a) => seq![1u8] + address_encoding(a),
    }
}

/// Spelling a name as bytes and reading it back gives the name.
pub proof fn lemma_name_round_trip(n: XorName)
    ensures
        name_bytes(n).len() == 32,
        name_from_bytes(name_bytes(n)) == n,
{
    lemma_auto_spec_u128_to_from_le_bytes();
    let s = name_bytes(n);
    assert(Seq::new(16, |i: int| s.subrange(0, 16)[15 - i]) =~= spec_u128_to_le_bytes(n.hi));
    assert(Seq::new(16, |i: int| s.subrange(16, 32)[15 - i]) =~= spec_u128_to_le_bytes(n.lo));
}

/// Reading a name from 32 bytes and spelling it gives the bytes.
pub proof fn lemma_name_reads_back(s: Seq<u8>)
    requires
        s.len() == 32,
    ensures
        name_bytes(name_from_bytes(s)) == s,
{
    lemma_auto_spec_u128_to_from_le_bytes();
    let hi = Seq::new(16, |i: int| s.subrange(0, 16)[15 - i]);
    let lo = Seq::new(16, |i: int| s.subrange(16, 32)[15 - i]);
    assert(spec_u128_to_le_bytes(spec_u128_from_le_bytes(hi)) == hi);
    assert(spec_u128_to_le_bytes(spec_u128_from_le_bytes(lo)) == lo);
    assert(name_bytes(name_from_bytes(s)) =~= s);
}

fn push_all(out: &mut Vec<u8>, src: &Vec<u8>)
    ensures
        final(out)@ == old(out)@ + src@,
{
    let mut i: usize = 0;
    while i < src.len()
        invariant
            i <= src.len(),
            out@ == old(out)@ + src@.take(i as int),
        decreases src.len() - i,
    {
        out.push(src[i]);
        proof {
            assert(src@.take(i as int + 1) =~= src@.take(i as int).push(src@[i as int]));
            assert(out@ =~= old(out)@ + src@.take(i as int + 1));
        }
        i += 1;
    }
    proof {
        assert(src@.take(src.len() as int) =~= src@);
    }
}

fn push_be(out: &mut Vec<u8>, x: u128)
    ensures
        final(out)@ == old(out)@ + be_bytes(x),
{
    let le = u128_to_le_bytes(x);
    let mut i: usize = 0;
    while i < 16
        invariant
            i <= 16,
            le@ == spec_u128_to_le_bytes(x),
            le@.len() == 16,
            out@ == old(out)@ + be_bytes(x).take(i as int),
        decreases 16 - i,
    {
        out.push(le[15 - i]);
        proof {
            assert(be_bytes(x).take(i as int + 1) =~= be_bytes(x).take(i as int).push(
                le@[15 - i as int],
            ));
            assert(out@ =~= old(out)@ + be_bytes(x).take(i as int + 1));
        }
        i += 1;
    }
    proof {
        assert(be_bytes(x).take(16) =~= be_bytes(x));
    }
}

/// Appends the 32 bytes of a name.
pub fn encode_name(out: &mut Vec<u8>, n: &XorName)
    ensures
        final(out)@ == old(out)@ + name_bytes(*n),
{
    push_be(out, n.hi);
    push_be(out, n.lo);
    proof {
        assert(out@ =~= old(out)@ + name_bytes(*n));
    }
}

/// Reads a name from the 32 bytes of a digest.
pub fn decode_name(bytes: &[u8; 32]) -> (n: XorName)
    ensures
        n == name_from_bytes(bytes@),
{
    let mut hi: Vec<u8> = Vec::new();
    let mut lo: Vec<u8> = Vec::new();
    let mut i: usize = 0;
    while i < 16
        invariant
            i <= 16,
            hi@.len() == i,
            lo@.len() == i,
            forall|j: int| 0 <= j < i ==> hi@[j] == bytes@[15 - j],
            forall|j: int| 0 <= j < i ==> lo@[j] == bytes@[31 - j],
        decreases 16 - i,
    {
        hi.push(bytes[15 - i]);
        lo.push(bytes[31 - i]);
        i += 1;
    }
    proof {
        assert(hi@ =~= Seq::new(16, |i: int| bytes@.subrange(0, 16)[15 - i]));
        assert(lo@ =~= Seq::new(16, |i: int| bytes@.subrange(16, 32)[15 - i]));
    }
    XorName { hi: u128_from_le_bytes(hi.as_slice()), lo: u128_from_le_bytes(lo.as_slice()) }
}

/// Appends a byte string behind its length.
pub fn encode_sized(out: &mut Vec<u8>, b: &Vec<u8>)
    ensures
        final(out)@ == old(out)@ + sized_bytes(b@),
{
    let len = u64_to_le_bytes(b.len() as u64);
    push_all(out, &len);
    push_all(out, b);
    proof {
        assert(out@ =~= old(out)@ + sized_bytes(b@));
    }
}

/// Appends the encoding of an address.
pub fn encode_address(out: &mut Vec<u8>, a: &ChunkAddress)
    ensures
        final(out)@ == old(out)@ + address_encoding(*a),
{
    match a.kind {
        ChunkKind::Public => out.push(0u8),
        ChunkKind::Private => out.push(1u8),
    }
    encode_name(out, &a.name);
    proof {
        assert(out@ =~= old(out)@ + address_encoding(*a));
    }
}

/// Appends the encoding of a chunk.
pub fn encode_chunk(out: &mut Vec<u8>, c: &Chunk)
    ensures
        final(out)@ == old(out)@ + chunk_encoding(*c),
{
    encode_address(out, &c.address);
    match &c.owner {
        Some(n) => {
            out.push(1u8);
            encode_name(out, n);
        },
        None => out.push(0u8),
    }
    proof {
        assert(out@ =~= old(out)@ + address_encoding(c.address) + owner_encoding(c.owner));
    }
    encode_sized(out, &c.bytes);
    proof {
        assert(out@ =~= old(out)@ + chunk_encoding(*c));
    }
}

/// The bytes that a change to the chunks is paid for as.
pub fn encode_write(w: &ChunkWrite) -> (out: Vec<u8>)
    ensures
        out@ == write_encoding(*w),
{
    let mut out: Vec<u8> = Vec::new();
    match w {
        ChunkWrite::New(c) => {
            out.push(0u8);
            encode_chunk(&mut out, c);
        },
        ChunkWrite::DeletePrivate(a) => {
            out.push(1u8);
            encode_address(&mut out, a);
        },
    }
    proof {
        assert(out@ =~= write_encoding(*w));
    }
    out
}

/// The bytes that a request is signed as.
pub fn encode_request(r: &Request) -> (out: Vec<u8>)
    ensures
        out@ == request_encoding(*r),
{
    let mut out: Vec<u8> = Vec::new();
    match r {
        Request::IData(IDataRequest::Put(c)) => {
            out.push(0u8);
            out.push(0u8);
            encode_chunk(&mut out, c);
        },
        Request::IData(IDataRequest::Get(a)) => {
            out.push(0u8);
            out.push(1u8);
            encode_address(&mut out, a);
        },
        Request::IData(IDataRequest::DeleteUnpub(a)) => {
            out.push(0u8);
            out.push(2u8);
            encode_address(&mut out, a);
        },
        Request::MData(b) => {
            out.push(1u8);
            encode_sized(&mut out, b);
        },
        Request::AData(b) => {
            out.push(2u8);
            encode_sized(&mut out, b);
        },
        Request::Coins(b) => {
            out.push(3u8);
            encode_sized(&mut out, b);
        },
        Request::LoginPacket(b) => {
            out.push(4u8);
            encode_sized(&mut out, b);
        },
        Request::Client(b) => {
            out.push(5u8);
            encode_sized(&mut out, b);
        },
        Request::Node(NodeRequest::Read(a)) => {
            out.push(6u8);
            out.push(0u8);
            encode_address(&mut out, a);
        },
        Request::Node(NodeRequest::Write(ChunkWrite::New(c))) => {
            out.push(6u8);
            out.push(1u8);
            encode_chunk(&mut out, c);
        },
        Request::Node(NodeRequest::Write(ChunkWrite::DeletePrivate(a))) => {
            out.push(6u8);
            out.push(2u8);
            encode_address(&mut out, a);
        },
    }
    proof {
        assert(out@ =~= request_encoding(*r));
    }
    out
}

} // verus!
