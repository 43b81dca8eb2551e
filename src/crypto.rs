//! Hashing and signer recovery, from the Solana program library.
use vstd::prelude::*;

use crate::bytes::read_array20;

verus! {

/// The Keccak-256 digest of a byte string.
pub uninterp spec fn keccak256_of(data: Seq<u8>) -> Seq<u8>;

/// The uncompressed secp256k1 public key (64 bytes, without the leading tag)
/// that signed `hash` with the 64-byte compact signature `signature`, when
/// there is one.
pub uninterp spec fn secp256k1_recovered(hash: Seq<u8>, recovery_id: u8, signature: Seq<u8>) -> Option<
    Seq<u8>,
>;

/// Relies on `solana_program::keccak::hash`: the Keccak-256 digest of `data`.
#[verifier::external_body]
pub(crate) fn keccak256(data: &[u8]) -> (r: [u8; 32])
    ensures
        r@ == keccak256_of(data@),
{
    solana_program::keccak::hash(data).to_bytes()
}

/// Relies on `solana_program::secp256k1_recover::secp256k1_recover`: the
/// public key that produced `signature` over `hash`, or an error (`None`) when
/// the hash, recovery id or signature cannot be parsed or recovers no key.
#[verifier::external_body]
pub(crate) fn secp256k1_recover(hash: &[u8], recovery_id: u8, signature: &[u8]) -> (r: Option<
    [u8; 64],
>)
    ensures
        match secp256k1_recovered(hash@, recovery_id, signature@) {
            Some(k) => r is Some && r->0@ == k,
            None => r is None,
        },
{
    solana_program::secp256k1_recover::secp256k1_recover(hash, recovery_id, signature).ok().map(
        |k| k.0,
    )
}

/// The 20-byte Ethereum-style address of a public key: the last 20 bytes of
/// its Keccak-256 digest.
pub open spec fn eth_address_of(pubkey: Seq<u8>) -> Seq<u8> {
    keccak256_of(pubkey).subrange(12, 32)
}

/// The address of the signer of `hash`, when a key can be recovered.
pub open spec fn recovered_address(hash: Seq<u8>, recovery_id: u8, signature: Seq<u8>) -> Option<
    Seq<u8>,
> {
    match secp256k1_recovered(hash, recovery_id, signature) {
        Some(k) => Some(eth_address_of(k)),
        None => None,
    }
}

/// The Keccak-256 digest of `data`.
pub fn hash_bytes(data: &[u8]) -> (r: [u8; 32])
    ensures
        r@ == keccak256_of(data@),
{
    keccak256(data)
}

/// Recovers the Ethereum-style address that signed `hash`.
pub fn recover_address(hash: &[u8; 32], recovery_id: u8, signature: &[u8]) -> (r: Option<[u8; 20]>)
    ensures
        match recovered_address(hash@, recovery_id, signature@) {
            Some(a) => r is Some && r->0@ == a,
            None => r is None,
        },
{
    match secp256k1_recover(hash.as_slice(), recovery_id, signature) {
        Some(pubkey) => {
            let digest = keccak256(pubkey.as_slice());
            let addr = read_array20(digest.as_slice(), 12);
            Some(addr)
        },
        None => None,
    }
}

} // verus!
