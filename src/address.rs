//! Ethereum addresses: the last 20 bytes of the Keccak-256 digest of the
//! 64-byte point of an uncompressed public key, as 40 lowercase hex digits.
use vstd::prelude::*;
use tiny_keccak::Hasher;
use crate::encoding::{hex_encode, hex_of, is_lower_hex, lemma_hex_of_is_lower_hex};
use crate::keys::{public_key_of, SecretKey};

verus! {

/// The 32-byte Keccak-256 digest of a byte string.
pub uninterp spec fn keccak256_of(input: Seq<u8>) -> Seq<u8>;

/// Relies on tiny_keccak's Keccak::v256 (update, then finalize): the
/// Keccak-256 digest of the input, a function of the input alone.
#[verifier::external_body]
fn keccak256(input: &[u8]) -> (r: [u8; 32])
    ensures
        r@ == keccak256_of(input@),
{
    let mut hasher = tiny_keccak::Keccak::v256();
    let mut output = [0u8; 32];
    hasher.update(input);
    hasher.finalize(&mut output);
    output
}

/// The address of an uncompressed public key: the tag byte is left out of the
/// hash, and the last 20 of the digest's 32 bytes are kept.
pub open spec fn address_of_public_key(pubkey: Seq<u8>) -> Seq<char> {
    hex_of(keccak256_of(pubkey.subrange(1, pubkey.len() as int)).subrange(12, 32))
}

/// The address that a secret key controls.
pub open spec fn address_of_secret(secret: Seq<u8>) -> Seq<char> {
    address_of_public_key(public_key_of(secret))
}

/// Text in the shape of an address: 40 lowercase hex digits.
pub open spec fn is_address_text(s: Seq<char>) -> bool {
    s.len() == 40 && is_lower_hex(s)
}

/// Derives the address of an uncompressed (65-byte) public key.
pub fn eth_address_from_pubkey(pubkey: &[u8; 65]) -> (r: String)
    ensures
        r@ == address_of_public_key(pubkey@),
        is_address_text(r@),
{
    let pubkey_bytes: &[u8] = pubkey.as_slice();
    let hash = keccak256(&pubkey_bytes[1..65]);
    let hash_bytes: &[u8] = hash.as_slice();
    let address = &hash_bytes[12..32];
    let r = hex_encode(address);
    proof {
        lemma_hex_of_is_lower_hex(address@);
    }
    r
}

/// Derives the address that a secret key controls.
pub fn address_of(key: &SecretKey) -> (r: String)
    ensures
        r@ == address_of_secret(key@),
        is_address_text(r@),
{
    let pubkey = key.public_key();
    eth_address_from_pubkey(&pubkey)
}

/// Derivation is a function of the key: equal keys give equal addresses.
pub proof fn lemma_derivation_deterministic(a: Seq<u8>, b: Seq<u8>)
    requires
        a == b,
    ensures
        address_of_secret(a) == address_of_secret(b),
{
}

} // verus!
