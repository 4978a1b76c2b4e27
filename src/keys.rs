//! secp256k1 secret keys held as their 32 big-endian bytes.
use vstd::prelude::*;
use rand::RngCore;
use crate::encoding::{hex_encode, hex_of};

verus! {

/// The order of the secp256k1 group.
pub open spec fn curve_order() -> nat {
    0xFFFFFFFFFFFFFFFFFFFFFFFFFFFFFFFEBAAEDCE6AF48A03BBFD25E8CD0364141nat
}

/// The integer that bytes stand for, most significant byte first.
pub open spec fn be_value(b: Seq<u8>) -> nat
    decreases b.len(),
{
    if b.len() == 0 {
        0
    } else {
        be_value(b.drop_last()) * 256 + b.last() as nat
    }
}

/// Bytes that make a legal secret scalar: 32 of them, nonzero, below the order.
pub open spec fn is_valid_secret(b: Seq<u8>) -> bool {
    &&& b.len() == 32
    &&& 0 < be_value(b)
    &&& be_value(b) < curve_order()
}

/// The 65-byte uncompressed encoding of the public key of a secret scalar.
pub uninterp spec fn public_key_of(secret: Seq<u8>) -> Seq<u8>;

/// Relies on secp256k1::SecretKey::from_slice, which accepts 32 bytes exactly
/// when libsecp256k1's seckey_verify does: nonzero and below the curve order,
/// read most significant byte first.
#[verifier::external_body]
fn scalar_is_valid(b: &[u8; 32]) -> (r: bool)
    ensures
        r == is_valid_secret(b@),
{
    secp256k1::SecretKey::from_slice(b).is_ok()
}

/// Relies on rand::thread_rng and RngCore::fill_bytes: 32 bytes from the
/// thread-local secure generator. Nothing is known of them.
#[verifier::external_body]
fn random_bytes() -> (r: [u8; 32]) {
    let mut b = [0u8; 32];
    rand::thread_rng().fill_bytes(&mut b);
    b
}

/// Relies on secp256k1::PublicKey::from_secret_key_global, with the key's
/// uncompressed serialization: 65 bytes, determined by the secret alone.
#[verifier::external_body]
fn uncompressed_public_key(secret: &[u8; 32]) -> (r: [u8; 65])
    requires
        is_valid_secret(secret@),
    ensures
        r@ == public_key_of(secret@),
{
    let sk = secp256k1::SecretKey::from_slice(secret).expect("a valid scalar");
    secp256k1::PublicKey::from_secret_key_global(&sk).serialize_uncompressed()
}

/// A secret key: 32 bytes that form a legal secp256k1 scalar.
pub struct SecretKey {
    bytes: [u8; 32],
}

impl View for SecretKey {
    type V = Seq<u8>;

    closed spec fn view(&self) -> Seq<u8> {
        self.bytes@
    }
}

impl SecretKey {
    #[verifier::type_invariant]
    spec fn inv(&self) -> bool {
        is_valid_secret(self.bytes@)
    }

    /// The key held by `bytes`, if they form a legal scalar.
    pub fn from_bytes(bytes: [u8; 32]) -> (r: Option<SecretKey>)
        ensures
            r is Some <==> is_valid_secret(bytes@),
            r matches Some(k) ==> k@ == bytes@,
    {
        if scalar_is_valid(&bytes) {
            Some(SecretKey { bytes })
        } else {
            None
        }
    }

    /// The key's bytes, most significant first.
    pub fn secret_bytes(&self) -> (r: [u8; 32])
        ensures
            r@ == self@,
    {
        self.bytes
    }

    /// The key as 64 lowercase hex digits.
    pub fn to_hex(&self) -> (r: String)
        ensures
            r@ == hex_of(self@),
    {
        hex_encode(&self.bytes)
    }

    /// The uncompressed encoding of the key's public key.
    pub fn public_key(&self) -> (r: [u8; 65])
        ensures
            r@ == public_key_of(self@),
    {
        proof {
            use_type_invariant(self);
        }
        uncompressed_public_key(&self.bytes)
    }
}

/// Draws random 32-byte strings until one is a legal scalar, at most
/// `max_draws` times; `None` when every draw was rejected.
pub fn sample_secret_key(max_draws: u32) -> (r: Option<SecretKey>)
    ensures
        max_draws == 0 ==> r is None,
        r matches Some(k) ==> is_valid_secret(k@),
{
    let mut left: u32 = max_draws;
    while left > 0
        invariant
            left <= max_draws,
        decreases left,
    {
        left = left - 1;
        if let Some(k) = SecretKey::from_bytes(random_bytes()) {
            return Some(k);
        }
    }
    None
}

} // verus!
