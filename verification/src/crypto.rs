//! The cryptography that the node takes from outside: the SHA3-256
//! fingerprint and BLS threshold signatures. Each function here is believed,
//! not proved; the rest of the library is verified against what they state.

use crate::messages::{PublicKey, Signature};
use vstd::bytes::{spec_u64_from_le_bytes, u64_from_le_bytes};
use vstd::prelude::*;
use vstd::slice::slice_subrange;

verus! {

/// The SHA3-256 digest of a byte string: 32 bytes.
pub uninterp spec fn sha3_256(input: Seq<u8>) -> Seq<u8>;

/// Whether `sig` is the BLS signature of `msg` under the public key `key`,
/// both given in compressed form. Bytes that are no valid key or no valid
/// signature verify nothing.
pub uninterp spec fn bls_verifies(key: Seq<u8>, sig: Seq<u8>, msg: Seq<u8>) -> bool;

/// The signature that a set of signature shares interpolates to under a
/// serialised public key set, where there is one: each share is given with
/// the index of the key share that made it.
pub uninterp spec fn bls_combined(key_set: Seq<u8>, shares: Seq<(u64, Seq<u8>)>) -> Option<
    Seq<u8>,
>;

/// The number of coefficients that the head of a serialised key set names:
/// its first 8 bytes.
pub open spec fn key_set_count(key_set: Seq<u8>) -> u64 {
    spec_u64_from_le_bytes(key_set.subrange(0, 8))
}

/// The bytes have the shape of a serialised key set: a count of at least
/// one coefficient in 8 bytes, and 48 bytes for every coefficient behind it.
pub open spec fn key_set_shape(key_set: Seq<u8>) -> bool {
    &&& key_set.len() >= 8
    &&& key_set_count(key_set) >= 1
    &&& key_set.len() == 8 + 48 * key_set_count(key_set)
}

/// Tells whether the bytes have the shape of a serialised key set.
pub fn has_key_set_shape(key_set: &[u8]) -> (r: bool)
    ensures
        r == key_set_shape(key_set@),
{
    let n = key_set.len();
    if n < 8 {
        return false;
    }
    let count = u64_from_le_bytes(slice_subrange(key_set, 0, 8));
    if count == 0 {
        return false;
    }
    let body = (n - 8) as u64;
    body % 48 == 0 && body / 48 == count
}

/// The indexed shares as plain values.
pub open spec fn share_values(shares: Seq<(u64, Signature)>) -> Seq<(u64, Seq<u8>)> {
    Seq::new(shares.len(), |i: int| (shares[i].0, shares[i].1@))
}

/// Calls `tiny_keccak::Sha3` (`v256`, `update`, `finalize`): the digest of
/// `input` under SHA3-256. Believed: that the result is that digest, which
/// depends on `input` alone and is 32 bytes long.
#[verifier::external_body]
pub(crate) fn digest(input: &[u8]) -> (r: [u8; 32])
    ensures
        r@ == sha3_256(input@),
{
    let mut out = [0u8; 32];
    let mut hasher = <tiny_keccak::Sha3>::v256();
    tiny_keccak::Hasher::update(&mut hasher, input);
    tiny_keccak::Hasher::finalize(hasher, &mut out);
    out
}

/// Calls `threshold_crypto::PublicKey::verify` on the key and signature that
/// the two byte strings decode to (`from_bytes`). Believed: that the answer
/// depends on the three byte strings alone. Where either does not decode the
/// answer is `false`.
#[verifier::external_body]
pub(crate) fn signature_verifies(key: &PublicKey, sig: &Signature, msg: &[u8]) -> (r: bool)
    ensures
        r == bls_verifies(key@, sig@, msg@),
{
    let decoded_key = threshold_crypto::PublicKey::from_bytes(&key.bytes);
    let decoded_sig = threshold_crypto::Signature::from_bytes(&sig.bytes);
    match (decoded_key, decoded_sig) {
        (Ok(k), Ok(s)) => k.verify(&s, msg),
        _ => false,
    }
}

/// Calls `threshold_crypto::PublicKeySet::combine_signatures` on the key set
/// that `key_set` deserialises to (`bincode::deserialize`) and on the shares
/// that the byte strings decode to, handed over in the order of the list.
/// Believed: that the result depends on the arguments alone, the order of
/// the shares among them. Where the key set or a share does not decode, or
/// the shares are too few, there is no result. A key set without a
/// coefficient has no degree, and the call is not made for one: the bytes
/// have to have the shape of a key set.
#[verifier::external_body]
pub(crate) fn combine_shares(key_set: &[u8], shares: &Vec<(u64, Signature)>) -> (r: Option<
    Signature,
>)
    requires
        key_set_shape(key_set@),
    ensures
        match r {
            Some(s) => bls_combined(key_set@, share_values(shares@)) == Some(s@),
            None => bls_combined(key_set@, share_values(shares@)) is None,
        },
{
    let set: threshold_crypto::PublicKeySet = bincode::deserialize(key_set).ok()?;
    let mut decoded = Vec::new();
    for (index, share) in shares.iter() {
        let s = threshold_crypto::SignatureShare::from_bytes(&share.bytes).ok()?;
        decoded.push((*index, s));
    }
    let combined = set.combine_signatures(decoded.iter().map(|(i, s)| (*i, s))).ok()?;
    Some(Signature { bytes: combined.to_bytes() })
}

} // verus!
