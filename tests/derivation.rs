use wallet_gen::address::{address_of, eth_address_from_pubkey};
use wallet_gen::keys::{sample_secret_key, SecretKey};
use wallet_gen::search::generate_wallet;

fn key_from_hex(text: &str) -> SecretKey {
    let bytes = hex::decode(text).unwrap();
    let mut array = [0u8; 32];
    array.copy_from_slice(&bytes);
    SecretKey::from_bytes(array).expect("a legal scalar")
}

fn is_lower_hex(s: &str) -> bool {
    s.chars().all(|c| c.is_ascii_digit() || ('a'..='f').contains(&c))
}

#[test]
fn address_of_scalar_one() {
    let key = key_from_hex("0000000000000000000000000000000000000000000000000000000000000001");
    assert_eq!(address_of(&key), "7e5f4552091a69125d5dfcb7b8c2659029395bdf");
}

#[test]
fn address_of_scalar_two() {
    let key = key_from_hex("0000000000000000000000000000000000000000000000000000000000000002");
    assert_eq!(address_of(&key), "2b5ad5c4795c026514f8317c7a215e218dccd6cf");
}

#[test]
fn address_of_published_vector() {
    let key = key_from_hex("4c0883a69102937d6231471b5dbb6204fe5129617082792ae468d01a3f362318");
    assert_eq!(address_of(&key), "2c7536e3605d9c16a7a3d7b1898e529396a65c23");
}

#[test]
fn derivation_is_deterministic() {
    let a = key_from_hex("4c0883a69102937d6231471b5dbb6204fe5129617082792ae468d01a3f362318");
    let b = key_from_hex("4c0883a69102937d6231471b5dbb6204fe5129617082792ae468d01a3f362318");
    assert_eq!(address_of(&a), address_of(&b));
    assert_eq!(address_of(&a), address_of(&a));
}

#[test]
fn address_from_public_key_bytes() {
    let key = key_from_hex("0000000000000000000000000000000000000000000000000000000000000001");
    let pubkey = key.public_key();
    assert_eq!(pubkey[0], 4);
    assert_eq!(
        hex::encode(&pubkey[1..33]),
        "79be667ef9dcbbac55a06295ce870b07029bfcdb2dce28d959f2815b16f81798"
    );
    assert_eq!(eth_address_from_pubkey(&pubkey), "7e5f4552091a69125d5dfcb7b8c2659029395bdf");
}

#[test]
fn generated_addresses_have_forty_lowercase_hex_digits() {
    for _ in 0..20 {
        let wallet = generate_wallet(64).expect("a key");
        assert_eq!(wallet.address().len(), 40);
        assert!(is_lower_hex(wallet.address()));
    }
}

#[test]
fn rejects_zero_scalar() {
    assert!(SecretKey::from_bytes([0u8; 32]).is_none());
}

#[test]
fn rejects_curve_order_and_above() {
    let order = hex::decode("fffffffffffffffffffffffffffffffebaaedce6af48a03bbfd25e8cd0364141").unwrap();
    let mut array = [0u8; 32];
    array.copy_from_slice(&order);
    assert!(SecretKey::from_bytes(array).is_none());
    assert!(SecretKey::from_bytes([0xffu8; 32]).is_none());
}

#[test]
fn accepts_largest_scalar() {
    let below = hex::decode("fffffffffffffffffffffffffffffffebaaedce6af48a03bbfd25e8cd0364140").unwrap();
    let mut array = [0u8; 32];
    array.copy_from_slice(&below);
    let key = SecretKey::from_bytes(array).expect("order minus one is legal");
    assert_eq!(key.secret_bytes(), array);
}

#[test]
fn secret_key_hex_has_sixty_four_digits() {
    let key = key_from_hex("00000000000000000000000000000000000000000000000000000000000000ab");
    assert_eq!(key.to_hex(), "00000000000000000000000000000000000000000000000000000000000000ab");
}

#[test]
fn sampling_with_no_draws_gives_nothing() {
    assert!(sample_secret_key(0).is_none());
    assert!(generate_wallet(0).is_none());
}

#[test]
fn sampled_keys_differ() {
    let a = sample_secret_key(64).expect("a key");
    let b = sample_secret_key(64).expect("a key");
    assert_ne!(a.secret_bytes(), b.secret_bytes());
}

#[test]
fn unconstrained_run_yields_one_consistent_wallet() {
    let wallet = generate_wallet(64).expect("a key");
    let key_hex = wallet.secret().to_hex();
    assert_eq!(key_hex.len(), 64);
    assert!(is_lower_hex(&key_hex));
    assert_eq!(wallet.address().len(), 40);
    let again = key_from_hex(&key_hex);
    assert_eq!(address_of(&again), wallet.address());
}
