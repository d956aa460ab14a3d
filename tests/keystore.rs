use ckb_keystore::address::{address, lock_hash, lock_script, NetworkTag, HASH_TYPE_TYPE};
use ckb_keystore::keys::{decode_hex, parse_public_key};
use ckb_keystore::order::{bytes_equal, bytes_less};
use ckb_keystore::store::{KeyOrigin, KeyRecord, KeyStore, StoreError};

const PUBKEY_ONE: &str = "0279be667ef9dcbbac55a06295ce870b07029bfcdb2dce28d959f2815b16f81798";
const PUBKEY_TWO: &str = "02c6047f9441ed7d6d3045406e95c07cd85c778e4b8cef3ca7abac09b95c709ee5";

fn secret(last: u8) -> Vec<u8> {
    let mut s = vec![0u8; 32];
    s[31] = last;
    s
}

fn hex(s: &str) -> Vec<u8> {
    decode_hex(s).unwrap()
}

fn imported(last: u8) -> KeyRecord {
    KeyRecord::import(secret(last), format!("/keys/{}", last)).unwrap()
}

#[test]
fn import_derives_compressed_public_key() {
    let rec = imported(1);
    assert_eq!(rec.public_key, hex(PUBKEY_ONE));
    assert_eq!(rec.private_key, secret(1));
    assert!(matches!(rec.origin, KeyOrigin::Imported(ref p) if p == "/keys/1"));
}

#[test]
fn import_rejects_bad_key_material() {
    assert_eq!(KeyRecord::import(vec![0u8; 32], "zero".to_string()).err(), Some(StoreError::InvalidKeyMaterial));
    assert_eq!(KeyRecord::import(vec![1u8; 31], "short".to_string()).err(), Some(StoreError::InvalidKeyMaterial));
    assert_eq!(KeyRecord::import(vec![0xffu8; 32], "over".to_string()).err(), Some(StoreError::InvalidKeyMaterial));
}

#[test]
fn scenario_import_add_list_remove() {
    let mut store = KeyStore::new();
    let rec = imported(1);
    let added = store.add(rec).unwrap();
    assert_eq!(added.public_key, hex(PUBKEY_ONE));
    let listed = store.list();
    assert_eq!(listed.len(), 1);
    assert_eq!(listed[0].public_key, hex(PUBKEY_ONE));
    assert!(matches!(listed[0].origin, KeyOrigin::Stored));
    let removed = store.remove_hex(PUBKEY_ONE).unwrap();
    assert_eq!(removed.private_key, secret(1));
    assert_eq!(store.list().len(), 0);
}

#[test]
fn second_add_is_duplicate() {
    let mut store = KeyStore::new();
    store.add(imported(1)).unwrap();
    let again = store.add(KeyRecord::import(secret(1), "/other".to_string()).unwrap());
    assert_eq!(again.err(), Some(StoreError::DuplicateKey));
    let listed = store.list();
    assert_eq!(listed.len(), 1);
    assert_eq!(listed[0].private_key, secret(1));
}

#[test]
fn add_refuses_mismatched_pair() {
    let mut store = KeyStore::new();
    let rec = KeyRecord { public_key: hex(PUBKEY_TWO), private_key: secret(1), origin: KeyOrigin::Stored };
    assert_eq!(store.add(rec).err(), Some(StoreError::InvalidKeyMaterial));
    assert_eq!(store.list().len(), 0);
}

#[test]
fn add_then_list_round_trip() {
    let mut store = KeyStore::new();
    let rec = imported(1);
    let before = rec.info(NetworkTag::Test);
    store.add(rec).unwrap();
    let listed = store.list();
    assert_eq!(listed.len(), 1);
    let after = listed[0].info(NetworkTag::Test);
    assert_eq!(after.public_key, before.public_key);
    assert_eq!(after.address, before.address);
    assert_eq!(after.lock_script.args, before.lock_script.args);
    assert_eq!(after.lock_hash, before.lock_hash);
}

#[test]
fn list_is_in_public_key_order() {
    let mut store = KeyStore::new();
    store.add(imported(2)).unwrap();
    store.add(imported(1)).unwrap();
    let listed = store.list();
    assert_eq!(listed.len(), 2);
    assert_eq!(listed[0].public_key, hex(PUBKEY_ONE));
    assert_eq!(listed[1].public_key, hex(PUBKEY_TWO));
    assert_eq!(listed[1].private_key, secret(2));
}

#[test]
fn remove_then_remove_again_is_not_found() {
    let mut store = KeyStore::new();
    store.add(imported(1)).unwrap();
    store.add(imported(2)).unwrap();
    let removed = store.remove(&hex(PUBKEY_ONE)).unwrap();
    assert_eq!(removed.public_key, hex(PUBKEY_ONE));
    assert_eq!(removed.private_key, secret(1));
    let listed = store.list();
    assert_eq!(listed.len(), 1);
    assert_eq!(listed[0].public_key, hex(PUBKEY_TWO));
    assert_eq!(store.remove(&hex(PUBKEY_ONE)).err(), Some(StoreError::NotFound));
}

#[test]
fn empty_store_lists_nothing() {
    let store = KeyStore::new();
    assert!(store.list().is_empty());
}

#[test]
fn remove_with_bad_public_key_text() {
    let mut store = KeyStore::new();
    store.add(imported(1)).unwrap();
    assert_eq!(store.remove_hex("0279be").err(), Some(StoreError::InvalidPublicKey));
    assert_eq!(store.remove_hex("zz79be667ef9dcbbac55a06295ce870b07029bfcdb2dce28d959f2815b16f81798").err(), Some(StoreError::InvalidPublicKey));
    assert_eq!(store.remove_hex("0579be667ef9dcbbac55a06295ce870b07029bfcdb2dce28d959f2815b16f81798").err(), Some(StoreError::InvalidPublicKey));
    assert_eq!(store.list().len(), 1);
    assert_eq!(store.remove_hex(PUBKEY_TWO).err(), Some(StoreError::NotFound));
}

#[test]
fn hex_decoding() {
    assert_eq!(decode_hex("0aFf"), Some(vec![10u8, 255]));
    assert_eq!(decode_hex(""), Some(vec![]));
    assert_eq!(decode_hex("abc"), None);
    assert_eq!(decode_hex("0x"), None);
    assert_eq!(parse_public_key(PUBKEY_ONE), Some(hex(PUBKEY_ONE)));
    assert_eq!(parse_public_key("00"), None);
}

#[test]
fn byte_order() {
    assert!(bytes_less(&vec![1, 2], &vec![1, 3]));
    assert!(!bytes_less(&vec![1, 3], &vec![1, 2]));
    assert!(bytes_less(&vec![1], &vec![1, 0]));
    assert!(!bytes_less(&vec![1, 0], &vec![1]));
    assert!(!bytes_less(&vec![4, 4], &vec![4, 4]));
    assert!(bytes_equal(&vec![4, 4], &vec![4, 4]));
    assert!(!bytes_equal(&vec![4, 4], &vec![4]));
}

#[test]
fn address_depends_on_network() {
    let pk = hex(PUBKEY_ONE);
    let test = address(NetworkTag::Test, &pk);
    let main = address(NetworkTag::Main, &pk);
    assert!(test.starts_with("ckt1"));
    assert!(main.starts_with("ckb1"));
    assert_ne!(test, main);
    assert_eq!(address(NetworkTag::Test, &pk), test);
    assert_ne!(address(NetworkTag::Test, &hex(PUBKEY_TWO)), test);
}

#[test]
fn lock_script_and_hash() {
    let pk = hex(PUBKEY_ONE);
    let script = lock_script(&pk);
    assert_eq!(script.code_hash, hex("9bd7e06f3ecf4be0f2fcd2188b23f1b9fcc88e5d4b65a8637b17723bbda3cce8"));
    assert_eq!(script.hash_type, HASH_TYPE_TYPE);
    assert_eq!(script.args.len(), 20);
    assert_ne!(script.args, pk[..20].to_vec());
    let h = lock_hash(&pk);
    assert_eq!(h.len(), 32);
    assert_ne!(h, lock_hash(&hex(PUBKEY_TWO)));
    assert_ne!(lock_script(&hex(PUBKEY_TWO)).args, script.args);
}

#[test]
fn derived_fields_of_generator_key() {
    let rec = imported(1);
    let info = rec.info(NetworkTag::Test);
    assert_eq!(info.address, "ckt1qyq829u0x32fchlfe5dqc4awh5q70h0eyj0qh8ngj4");
    assert_eq!(info.lock_script.args, hex("75178f34549c5fe9cd1a0c57aebd01e7ddf9249e"));
    assert_eq!(info.lock_hash, hex("0b1bae4beaf456349c63c3ce67491fc75a1276d7f9eedd7ea84d6a77f9f3f5f7"));
    assert_eq!(rec.info(NetworkTag::Main).address, "ckb1qyq829u0x32fchlfe5dqc4awh5q70h0eyj0q2zdh7f");
}
