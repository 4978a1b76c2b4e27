//! Vanity key search for Ethereum-style addresses.
//!
//! The library samples secp256k1 secret keys, derives the address of each
//! (the last twenty bytes of the Keccak-256 digest of the uncompressed public
//! key, in lowercase hex), tests it against a prefix and a suffix, and keeps
//! the shared search state (a found flag and an attempt counter) of the
//! workers that run the search.
pub mod encoding;
pub mod keys;
pub mod address;
pub mod matcher;
pub mod search;
